use placement_xlsx::paths::{ensure_xlsx_extension, generate_output_path};

#[test]
fn derived_output_replaces_extension() {
    assert_eq!(generate_output_path("foo.txt"), "foo.xlsx");
}

#[test]
fn derived_output_appends_when_no_extension() {
    assert_eq!(generate_output_path("foo"), "foo.xlsx");
}

#[test]
fn derived_output_keeps_directory() {
    assert_eq!(generate_output_path("reports/place_txt.txt"), "reports/place_txt.xlsx");
}

#[test]
fn derived_output_replaces_only_last_extension() {
    assert_eq!(generate_output_path("dir/a.b.c"), "dir/a.b.xlsx");
}

#[test]
fn derived_output_hidden_file_gets_suffix() {
    assert_eq!(generate_output_path(".hidden"), ".hidden.xlsx");
}

#[test]
fn explicit_output_without_extension() {
    assert_eq!(ensure_xlsx_extension("bar"), "bar.xlsx");
}

#[test]
fn explicit_output_with_other_extension() {
    assert_eq!(ensure_xlsx_extension("bar.txt"), "bar.xlsx");
}

#[test]
fn explicit_output_already_xlsx_unchanged() {
    assert_eq!(ensure_xlsx_extension("bar.xlsx"), "bar.xlsx");
}

#[test]
fn explicit_output_dotted_directory() {
    assert_eq!(ensure_xlsx_extension("v1.2/out"), "v1.2/out.xlsx");
}

#[test]
fn trailing_slash_still_names_a_file() {
    assert_eq!(generate_output_path("dir/"), "dir.xlsx");
    assert_eq!(ensure_xlsx_extension("dir/"), "dir.xlsx");
    assert_eq!(generate_output_path("a/b.c/"), "a/b.xlsx");
}

#[test]
fn dot_components_have_no_file_name() {
    assert_eq!(generate_output_path("."), ".");
    assert_eq!(ensure_xlsx_extension("."), ".");
    assert_eq!(generate_output_path("a/.."), "a/..");
    assert_eq!(ensure_xlsx_extension("a/.."), "a/..");
}

#[test]
fn empty_and_root_paths_unchanged() {
    assert_eq!(generate_output_path(""), "");
    assert_eq!(generate_output_path("/"), "/");
    assert_eq!(ensure_xlsx_extension("/"), "/");
}

#[test]
fn xlsx_name_with_trailing_slash_kept_verbatim() {
    assert_eq!(ensure_xlsx_extension("dir.xlsx/"), "dir.xlsx/");
}

#[test]
fn ensure_xlsx_extension_is_idempotent() {
    for p in ["bar", "bar.txt", "bar.xlsx", "dir/", "a/b.c/", ".", "v1.2/out"] {
        let once = ensure_xlsx_extension(p);
        assert_eq!(ensure_xlsx_extension(&once), once);
    }
}
