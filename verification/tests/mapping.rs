use rpr::markdown::mapping::strip_mapping;

#[test]
fn a_prefix_within_the_first_line_moves_the_first_line_on() {
    // "RP: Hello\nnext\nlast" read from the places 100, 120 and 140.
    let mapping = vec![(0, 100), (10, 120), (15, 140)];
    assert_eq!(strip_mapping(&mapping, 4), vec![(0, 104), (6, 120), (11, 140)]);
}

#[test]
fn nothing_stripped_leaves_the_map_as_it_was() {
    let mapping = vec![(0, 100), (10, 120)];
    assert_eq!(strip_mapping(&mapping, 0), mapping);
}

#[test]
fn a_prefix_over_several_lines_leaves_out_the_lines_it_covers() {
    let mapping = vec![(0, 100), (4, 120), (9, 140), (20, 160)];
    assert_eq!(strip_mapping(&mapping, 9), vec![(0, 140), (11, 160)]);
    assert_eq!(strip_mapping(&mapping, 10), vec![(0, 141), (10, 160)]);
    assert_eq!(strip_mapping(&mapping, 25), vec![(0, 165)]);
}

#[test]
fn every_place_keeps_its_source() {
    let mapping = vec![(0usize, 100usize), (4, 120), (9, 140), (20, 160)];
    let source = |mapping: &Vec<(usize, usize)>, pos: usize| {
        let entry = mapping.iter().rev().find(|entry| entry.0 <= pos).unwrap();
        entry.1 + (pos - entry.0)
    };
    for reduction in 0..30 {
        let short = strip_mapping(&mapping, reduction);
        for pos in 0..30 {
            assert_eq!(source(&short, pos), source(&mapping, pos + reduction));
        }
    }
}
