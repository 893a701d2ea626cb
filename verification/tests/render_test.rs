use term::buffer::Buff;
use term::project::{Cmd, CmdDescriptor};
use term::scroll::Anchor;

fn descriptor() -> CmdDescriptor {
    CmdDescriptor {
        name: "demo".to_string(),
        executable: "true".to_string(),
        workdir: ".".to_string(),
    }
}

fn scenario_cmd() -> Cmd {
    let lines = vec![
        "1*1*1*1".to_string(),
        "2*2*2*2".to_string(),
        "3*3*3*3".to_string(),
        "4*4*4*4".to_string(),
        "5*5*5*5".to_string(),
    ];
    let mut cmd = Cmd::new(descriptor());
    cmd.output.data = Buff::new(lines, 2);
    cmd.output.anchor = Anchor { block: 1, line: 1 };
    cmd
}

#[test]
fn window_starts_at_the_anchor() {
    let cmd = scenario_cmd();

    assert_eq!(cmd.render(3, 2), vec!["4*4".to_string(), "*4*".to_string()]);
}

#[test]
fn window_spills_into_the_next_block() {
    let cmd = scenario_cmd();

    assert_eq!(
        cmd.render(3, 4),
        vec!["4*4".to_string(), "*4*".to_string(), "4".to_string(), "5*5".to_string()]
    );
}

#[test]
fn window_fills_backward_when_forward_rows_run_out() {
    let cmd = scenario_cmd();

    assert_eq!(
        cmd.render(5, 5),
        vec![
            "*3".to_string(),
            "4*4*4".to_string(),
            "*4".to_string(),
            "5*5*5".to_string(),
            "*5".to_string()
        ]
    );
}

#[test]
fn window_never_exceeds_height_and_never_pads() {
    let cmd = scenario_cmd();

    // at width 3 each seven-character line yields three rows: 15 in all.
    assert_eq!(cmd.render(3, 100).len(), 15);
    assert_eq!(cmd.render(3, 15).len(), 15);
    assert_eq!(cmd.render(3, 7).len(), 7);
    assert_eq!(cmd.render(3, 0).len(), 0);
}

#[test]
fn empty_store_renders_nothing() {
    let cmd = Cmd::new(descriptor());

    assert_eq!(cmd.render(10, 5), Vec::<String>::new());
}

#[test]
fn build_lines_chunks_to_width() {
    let rows = Cmd::build_lines(&vec!["abcdef".to_string(), "gh".to_string()], 3);

    assert_eq!(rows, vec!["abc".to_string(), "def".to_string(), "gh".to_string()]);
}

#[test]
fn build_lines_keeps_an_empty_line_as_one_blank_row() {
    let rows = Cmd::build_lines(&vec!["".to_string(), "xy".to_string()], 4);

    assert_eq!(rows, vec!["".to_string(), "xy".to_string()]);
}

#[test]
fn wrapping_preserves_content() {
    let line = "the quick brown fox jumps over the lazy dog".to_string();

    for w in 1..10usize {
        let rows = Cmd::build_lines(&vec![line.clone()], w);
        assert!(rows.iter().all(|r| r.chars().count() <= w));
        assert_eq!(rows.concat(), line);
    }
}

#[test]
fn wrapping_counts_characters_not_bytes() {
    let rows = Cmd::build_lines(&vec!["héllo wörld".to_string()], 4);

    assert_eq!(
        rows,
        vec!["héll".to_string(), "o wö".to_string(), "rld".to_string()]
    );
}

#[test]
fn anchor_at_the_live_tail_shows_the_last_rows() {
    let mut cmd = scenario_cmd();
    cmd.output.anchor = Anchor { block: 2, line: 1 };

    assert_eq!(cmd.render(3, 2), vec!["*5*".to_string(), "5".to_string()]);
}
