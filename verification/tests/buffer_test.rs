use term::buffer::Buff;

fn gen_lines(len: usize) -> Vec<String> {
    let mut lines = vec![];

    for i in 0..len {
        lines.push(format!("Line{}", i))
    }

    lines
}

fn flat(buff: &Buff) -> Vec<String> {
    let mut all = vec![];

    for block in buff.content() {
        all.extend(block);
    }

    all
}

#[test]
fn append_with_empty_blocks_pushes_data_to_the_new_block() {
    let mut buff = Buff::new(vec![], 32);
    let new_content = gen_lines(20);

    buff.append(new_content.clone());

    assert_eq!(buff.content(), [new_content].to_vec())
}

#[test]
fn append_generates_new_blocks_to_fit_data() {
    let mut buff = Buff::new(["Foo".to_string()].to_vec(), 2);
    let new_content = gen_lines(4);

    buff.append(new_content.clone());

    assert_eq!(
        buff.content(),
        [
            ["Foo".to_string(), "Line0".to_string(),].to_vec(),
            ["Line1".to_string(), "Line2".to_string(),].to_vec(),
            ["Line3".to_string(),].to_vec(),
        ]
        .to_vec()
    )
}

#[test]
fn block_count_is_lines_divided_by_capacity_rounded_up() {
    // 7 lines at 3 per block: 3 blocks.
    let buff = Buff::new(gen_lines(7), 3);
    assert_eq!(buff.content().len(), 3);

    // an exact multiple: 6 lines at 3 per block is 2 blocks.
    let buff = Buff::new(gen_lines(6), 3);
    assert_eq!(buff.content().len(), 2);

    // no lines at all: a single empty block.
    let buff = Buff::new(vec![], 3);
    assert_eq!(buff.content(), [Vec::<String>::new()].to_vec());
}

#[test]
fn concatenating_blocks_reproduces_appended_lines() {
    let lines = gen_lines(11);
    let mut buff = Buff::new(lines.clone(), 4);

    assert_eq!(flat(&buff), lines);

    let more = gen_lines(5);
    buff.append(more.clone());

    let mut expected = lines;
    expected.extend(more);
    assert_eq!(flat(&buff), expected);
}

#[test]
fn only_the_last_block_is_below_capacity() {
    let buff = Buff::new(gen_lines(10), 4);
    let blocks = buff.content();

    assert_eq!(blocks.len(), 3);
    assert_eq!(blocks[0].len(), 4);
    assert_eq!(blocks[1].len(), 4);
    assert_eq!(blocks[2].len(), 2);
}
