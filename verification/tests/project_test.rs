use term::buffer::Buff;
use term::project::{Cmd, CmdDescriptor, CmdOutput, OUTPUT_SIZE_THRESHOLD};
use term::scroll::Anchor;

fn descriptor() -> CmdDescriptor {
    CmdDescriptor {
        name: "demo".to_string(),
        executable: "true".to_string(),
        workdir: ".".to_string(),
    }
}

fn numbered(from: usize, to: usize) -> Vec<String> {
    let mut lines = vec![];

    for i in from..to {
        lines.push(format!("out{}", i))
    }

    lines
}

fn stored(out: &CmdOutput) -> Vec<String> {
    let mut all = vec![];

    for block in out.data.content() {
        all.extend(block);
    }

    all
}

#[test]
fn stop_on_idle_reports_no_action_both_times() {
    let mut cmd = Cmd::new(descriptor());

    assert_eq!(cmd.stop(), false);
    assert_eq!(cmd.stop(), false);
}

#[test]
fn run_twice_spawns_exactly_once() {
    let mut cmd = Cmd::new(descriptor());

    assert_eq!(cmd.run(5), true);
    assert!(cmd.status.is_running);
    assert_eq!(cmd.status.started_at, Some(5));

    // a second run without an intervening stop keeps the first child.
    assert_eq!(cmd.run(9), false);
    assert_eq!(cmd.status.started_at, Some(5));
}

#[test]
fn stop_after_run_acts_once_and_clears_output() {
    let mut cmd = Cmd::new(descriptor());
    cmd.run(1);
    cmd.output.append(numbered(0, 10));

    assert_eq!(cmd.stop(), true);
    assert!(!cmd.status.is_running);
    assert_eq!(stored(&cmd.output), Vec::<String>::new());
    assert_eq!(cmd.output.anchor, Anchor { block: 0, line: 0 });
    assert_eq!(cmd.stop(), false);
}

#[test]
fn spawn_failure_returns_the_process_to_idle() {
    let mut cmd = Cmd::new(descriptor());

    assert_eq!(cmd.run(3), true);
    cmd.spawn_failed();
    assert!(!cmd.status.is_running);

    // the process can be run again afterwards.
    assert_eq!(cmd.run(4), true);
}

#[test]
fn eviction_keeps_only_the_most_recent_lines() {
    let mut out = CmdOutput::default();
    out.append(numbered(0, 2000));
    out.append(numbered(2000, 4000));

    let kept = stored(&out);
    assert_eq!(kept.len(), OUTPUT_SIZE_THRESHOLD);
    assert_eq!(kept[0], "out1000");
    assert_eq!(kept[kept.len() - 1], "out3999");
}

#[test]
fn appends_below_the_threshold_drop_nothing() {
    let mut out = CmdOutput::default();
    out.append(numbered(0, 100));
    out.append(numbered(100, 200));

    assert_eq!(stored(&out), numbered(0, 200));
}

#[test]
fn clear_discards_output_and_resets_the_anchor() {
    let mut out = CmdOutput::default();
    out.append(numbered(0, 250));
    out.scroll_down(40);

    out.clear();

    assert_eq!(stored(&out), Vec::<String>::new());
    assert_eq!(out.anchor, Anchor { block: 0, line: 0 });
}

fn five_line_output() -> CmdOutput {
    CmdOutput {
        data: Buff::new(numbered(0, 5), 2),
        anchor: Anchor { block: 0, line: 0 },
    }
}

#[test]
fn scroll_down_advances_and_clamps_at_the_live_tail() {
    let mut out = five_line_output();

    out.scroll_down(2);
    assert_eq!(out.anchor, Anchor { block: 1, line: 0 });

    out.scroll_down(100);
    assert_eq!(out.anchor, Anchor { block: 2, line: 1 });

    // at the live tail, scrolling further down does nothing.
    out.scroll_down(1);
    assert_eq!(out.anchor, Anchor { block: 2, line: 1 });
}

#[test]
fn scroll_up_retreats_and_clamps_at_the_start() {
    let mut out = five_line_output();
    out.scroll_down(100);

    out.scroll_up(1);
    assert_eq!(out.anchor, Anchor { block: 2, line: 0 });

    out.scroll_up(100);
    assert_eq!(out.anchor, Anchor { block: 0, line: 0 });

    out.scroll_up(1);
    assert_eq!(out.anchor, Anchor { block: 0, line: 0 });
}

#[test]
fn paging_moves_by_the_viewport_height() {
    let mut out = five_line_output();

    out.page_down(4);
    assert_eq!(out.anchor, Anchor { block: 2, line: 0 });

    out.page_up(3);
    assert_eq!(out.anchor, Anchor { block: 0, line: 1 });
}

#[test]
fn an_anchor_at_the_live_tail_follows_new_output() {
    let mut out = CmdOutput::default();
    assert_eq!(out.data.index_of(out.anchor), 0);

    out.append(numbered(0, 7));
    assert_eq!(out.data.index_of(out.anchor), 7);

    out.append(numbered(7, 9));
    assert_eq!(out.data.index_of(out.anchor), 9);
}

#[test]
fn a_scrolled_away_viewport_stays_on_its_line_as_output_arrives() {
    let mut out = CmdOutput::default();
    out.append(numbered(0, 50));
    out.scroll_up(30);
    assert_eq!(out.data.index_of(out.anchor), 20);

    out.append(numbered(50, 60));
    assert_eq!(out.data.index_of(out.anchor), 20);
}

#[test]
fn eviction_shifts_the_anchor_with_its_line() {
    let mut out = CmdOutput::default();
    out.append(numbered(0, 3000));
    out.scroll_up(1500);
    let before = out.data.index_of(out.anchor);
    assert_eq!(before, 1500);

    // 500 lines fall off the front; the anchored line moves down by 500.
    out.append(numbered(3000, 3500));
    assert_eq!(out.data.index_of(out.anchor), 1000);
}
