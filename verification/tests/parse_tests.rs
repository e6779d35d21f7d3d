use placement_xlsx::parse::parse_placement;
use placement_xlsx::record::ParseMode;

#[test]
fn simple_single_line() {
    let (recs, headers, meta) = parse_placement(ParseMode::Simple, "R1!1.0!2.0!90!!0402\n");
    assert_eq!(recs.len(), 1);
    assert_eq!(recs[0].designator, "R1");
    assert_eq!(recs[0].mid_x, "1.0");
    assert_eq!(recs[0].mid_y, "2.0");
    assert_eq!(recs[0].rotation, "90");
    assert_eq!(recs[0].layer, "T");
    assert_eq!(recs[0].footprint, "'0402");
    assert_eq!(headers.len(), 6);
    assert_eq!(meta.len(), 0);
}

#[test]
fn simple_mirror_set() {
    let (recs, _, _) = parse_placement(ParseMode::Simple, "R2!3.0!4.0!180!TOP!0603\n");
    assert_eq!(recs.len(), 1);
    assert_eq!(recs[0].designator, "R2");
    assert_eq!(recs[0].layer, "B");
    assert_eq!(recs[0].footprint, "'0603");
}

#[test]
fn comments_only_zero_records() {
    let (recs, headers, meta) = parse_placement(ParseMode::Simple, "# comment\n---\n\n");
    assert_eq!(recs.len(), 0);
    assert_eq!(meta.len(), 0);
    assert_eq!(
        headers,
        vec!["Designator", "Mid x", "Mid y", "Rotation", "Layer", "Footprint"]
    );
}

#[test]
fn header_row_fixed_for_empty_input() {
    let (recs, headers, _) = parse_placement(ParseMode::Extended, "");
    assert_eq!(recs.len(), 0);
    assert_eq!(
        headers,
        vec!["Designator", "Mid x", "Mid y", "Rotation", "Layer", "Footprint"]
    );
}

#[test]
fn short_line_dropped() {
    let (recs, _, _) = parse_placement(ParseMode::Simple, "R1!1.0!2.0!90!\nC3!5!6\n");
    assert_eq!(recs.len(), 0);
}

#[test]
fn extra_fields_ignored_and_fields_trimmed() {
    let (recs, _, _) =
        parse_placement(ParseMode::Simple, " R9 ! 1.5 ! 2.5 ! 270 ! yes ! 0805 !extra!more\n");
    assert_eq!(recs.len(), 1);
    assert_eq!(recs[0].designator, "R9");
    assert_eq!(recs[0].mid_x, "1.5");
    assert_eq!(recs[0].mid_y, "2.5");
    assert_eq!(recs[0].rotation, "270");
    assert_eq!(recs[0].layer, "B");
    assert_eq!(recs[0].footprint, "'0805");
}

#[test]
fn all_whitespace_mirror_gives_top_layer() {
    let (recs, _, _) = parse_placement(ParseMode::Simple, "U1!0!0!0!   \t!QFN32\n");
    assert_eq!(recs.len(), 1);
    assert_eq!(recs[0].layer, "T");
}

#[test]
fn footprint_whitespace_never_kept() {
    let (recs, _, _) = parse_placement(ParseMode::Simple, "U2!0!0!0!!  SOT-23  \n");
    assert_eq!(recs.len(), 1);
    assert_eq!(recs[0].footprint, "'SOT-23");
}

#[test]
fn version_line_skipped_in_simple_mode() {
    let (recs, _, meta) =
        parse_placement(ParseMode::Simple, "VERSION 5.0\nR1!1!2!3!!0402\n");
    assert_eq!(recs.len(), 1);
    assert_eq!(meta.len(), 0);
}

#[test]
fn extended_metadata_block() {
    let input = "VERSION 5.0\nUNITS mm\n\n# begin of data\nR1!1!2!3!!0402\n---\nbad!line\n";
    let (recs, _, meta) = parse_placement(ParseMode::Extended, input);
    assert_eq!(meta, vec!["VERSION 5.0", "UNITS mm"]);
    assert_eq!(recs.len(), 1);
    assert_eq!(recs[0].designator, "R1");
    assert_eq!(recs[0].footprint, "'0402");
}

#[test]
fn extended_without_terminator_keeps_all_as_metadata() {
    let (recs, _, meta) = parse_placement(ParseMode::Extended, "R1!1.0!2.0!90!!0402\n");
    assert_eq!(recs.len(), 0);
    assert_eq!(meta, vec!["R1!1.0!2.0!90!!0402"]);
}

#[test]
fn crlf_line_endings() {
    let input = "head A\r\n# x\r\nR4!7!8!9!BOT!LQFP\r\n";
    let (recs, _, meta) = parse_placement(ParseMode::Extended, input);
    assert_eq!(meta, vec!["head A"]);
    assert_eq!(recs.len(), 1);
    assert_eq!(recs[0].designator, "R4");
    assert_eq!(recs[0].layer, "B");
    assert_eq!(recs[0].footprint, "'LQFP");
}

#[test]
fn records_keep_input_order() {
    let input = "# h\nA1!1!1!0!!fpa\nA2!2!2!0!!fpb\nA3!3!3!0!!fpc\n";
    let (recs, _, _) = parse_placement(ParseMode::Extended, input);
    let names: Vec<&str> = recs.iter().map(|r| r.designator.as_str()).collect();
    assert_eq!(names, vec!["A1", "A2", "A3"]);
}

#[test]
fn no_trailing_newline_still_parsed() {
    let (recs, _, _) = parse_placement(ParseMode::Simple, "R1!1.0!2.0!90!!0402");
    assert_eq!(recs.len(), 1);
    assert_eq!(recs[0].designator, "R1");
    assert_eq!(recs[0].footprint, "'0402");
}

#[test]
fn terminator_on_first_line_gives_empty_metadata() {
    let (recs, _, meta) = parse_placement(ParseMode::Extended, "# data\nR1!1!2!3!!fp\n");
    assert_eq!(meta.len(), 0);
    assert_eq!(recs.len(), 1);
}

#[test]
fn whitespace_only_metadata_line_kept_blank_dropped() {
    let (_, _, meta) = parse_placement(ParseMode::Extended, "a\n\n  \nb\n# end\n");
    assert_eq!(meta, vec!["a", "  ", "b"]);
}

#[test]
fn lone_carriage_return_is_not_a_line_ending() {
    let (recs, _, _) = parse_placement(ParseMode::Simple, "R1!1!2!3!!fp\rR2!4!5!6!!fp\n");
    assert_eq!(recs.len(), 1);
    assert_eq!(recs[0].designator, "R1");
    assert_eq!(recs[0].mid_x, "1");
    assert_eq!(recs[0].footprint, "'fp\rR2");
}

#[test]
fn indented_comment_lines_skipped() {
    let (recs, _, _) = parse_placement(ParseMode::Simple, "   # note!a!b!c!d!e\n  --- !a!b!c!d!e\n");
    assert_eq!(recs.len(), 0);
}
