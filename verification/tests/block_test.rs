use term::buffer::Block;

fn gen_block_lines(len: usize) -> Vec<String> {
    let mut lines = vec![];

    for i in 0..len {
        lines.push(format!("Line{}", i))
    }

    lines
}

fn block_with(content: Vec<String>, size: usize) -> Block {
    let mut block = Block::new(size);
    block.append(content);
    block
}

#[test]
fn len_returns_content_length() {
    let block = block_with(gen_block_lines(3), 10);

    assert_eq!(block.len(), 3);
}

#[test]
fn is_empty_with_empty_block_returns_true() {
    let block = block_with(vec![], 10);

    assert_eq!(block.is_empty(), true);
}

#[test]
fn is_empty_with_non_empty_block_returns_false() {
    let block = block_with(gen_block_lines(3), 10);

    assert_eq!(block.is_empty(), false);
}

#[test]
fn cap_returns_available_space_size() {
    let block = block_with(gen_block_lines(3), 10);

    assert_eq!(block.cap(), 7);
}

#[test]
fn cap_returns_block_capacity() {
    let block = block_with(gen_block_lines(3), 10);

    assert_eq!(block.cap(), 7);
}

#[test]
fn append_with_enough_capcity_adds_data_to_block() {
    let intial_content = gen_block_lines(3);
    let mut block = block_with(intial_content.to_vec(), 5);

    block.append(["Foo".to_string(), "Bar".to_string()].to_vec());

    let mut expecred_result = gen_block_lines(3);
    expecred_result.push("Foo".to_string());
    expecred_result.push("Bar".to_string());

    assert_eq!(block.content, expecred_result);
}

#[test]
fn new_block_is_empty_with_full_capacity() {
    let block = Block::new(4);

    assert_eq!(block.len(), 0);
    assert!(block.is_empty());
    assert_eq!(block.cap(), 4);
}

#[test]
fn data_exposes_appended_lines_in_order() {
    let block = block_with(gen_block_lines(2), 8);

    assert_eq!(block.data(), ["Line0".to_string(), "Line1".to_string()].as_slice());
}
