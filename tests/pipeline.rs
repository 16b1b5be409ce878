use region_names::compose::{all_codes_resolvable, code_is_resolvable, expand_all, expand_name};
use region_names::output::{format_record, prefixed_file_name, render_records};
use region_names::parse::{parse_line, parse_lines, trim_line, LineKind};
use region_names::region::{has_common_prefix, has_trailing_zeros, same_text, Region};
use region_names::resolve::{find_city_name, find_province_name};

fn table(rows: &[(&str, &str)]) -> Vec<Region> {
    rows.iter().map(|(c, n)| Region::new(c, n)).collect()
}

fn lines(text: &[&str]) -> Vec<String> {
    text.iter().map(|l| l.to_string()).collect()
}

fn names(records: &[Region]) -> Vec<String> {
    records.iter().map(|r| r.name.clone()).collect()
}

#[test]
fn hierarchy_names_are_composed() {
    let regions = table(&[
        ("110000", "Beijing"),
        ("110100", "Beijing City"),
        ("110101", "Dongcheng"),
    ]);
    let records = expand_all(&regions, "/");
    assert_eq!(
        names(&records),
        vec!["Beijing", "Beijing/Beijing City", "Beijing/Beijing City/Dongcheng"]
    );
    let codes: Vec<String> = records.iter().map(|r| r.code.clone()).collect();
    assert_eq!(codes, vec!["110000", "110100", "110101"]);
}

#[test]
fn missing_ancestors_leave_empty_segments() {
    let regions = table(&[("110101", "Dongcheng")]);
    let records = expand_all(&regions, "/");
    assert_eq!(names(&records), vec!["//Dongcheng"]);
}

#[test]
fn city_without_province_keeps_delimiter() {
    let regions = table(&[("110100", "Beijing City")]);
    assert_eq!(expand_name(&regions, &regions[0], " - "), " - Beijing City");
}

#[test]
fn longer_delimiter_is_used_between_all_segments() {
    let regions = table(&[
        ("110000", "Beijing"),
        ("110100", "City"),
        ("110101", "Dongcheng"),
    ]);
    assert_eq!(expand_name(&regions, &regions[2], "::"), "Beijing::City::Dongcheng");
}

#[test]
fn malformed_lines_are_dropped_or_skipped() {
    // "abc xyz\n110000 Beijing\n\n" read line by line
    let report = parse_lines(&lines(&["abc xyz", "110000 Beijing", ""]));
    assert_eq!(report.lines_read, 3);
    assert_eq!(report.regions.len(), 1);
    assert_eq!(report.regions[0].code, "110000");
    assert_eq!(report.regions[0].name, "Beijing");
    assert!(report.invalid_lines.is_empty());
}

#[test]
fn retained_count_matches_numeric_two_field_lines() {
    let input = lines(&[
        "110000 Beijing",
        "code name",
        "110100",
        "   ",
        "110101\tDongcheng extra words",
        "12a4 Bad",
        "120000 Tianjin",
    ]);
    let report = parse_lines(&input);
    assert_eq!(report.lines_read, 7);
    assert_eq!(report.regions.len(), 3);
    assert_eq!(report.invalid_lines, vec![3]);
    assert_eq!(report.regions[1].code, "110101");
    assert_eq!(report.regions[1].name, "Dongcheng");
}

#[test]
fn empty_input_gives_no_regions() {
    let report = parse_lines(&Vec::new());
    assert_eq!(report.lines_read, 0);
    assert!(report.regions.is_empty());
    assert_eq!(render_records(&expand_all(&report.regions, "/")), "");
}

#[test]
fn line_kinds() {
    assert!(matches!(parse_line(""), LineKind::Blank));
    assert!(matches!(parse_line(" \t\u{3000} "), LineKind::Blank));
    assert!(matches!(parse_line("110000"), LineKind::Invalid));
    assert!(matches!(parse_line("  110000  "), LineKind::Invalid));
    assert!(matches!(parse_line("abc xyz"), LineKind::NotRegion));
    assert!(matches!(parse_line("-1 Minus"), LineKind::NotRegion));
    match parse_line("\u{a0} 110000   Beijing  Shi\u{3000}") {
        LineKind::Entry(r) => {
            assert_eq!(r.code, "110000");
            assert_eq!(r.name, "Beijing");
        }
        _ => panic!("expected a region"),
    }
    match parse_line("110000 Beijing\u{3000}") {
        LineKind::Entry(r) => assert_eq!(r.name, "Beijing"),
        _ => panic!("expected a region"),
    }
}

#[test]
fn unicode_space_inside_a_line_splits_fields() {
    match parse_line("110000\u{3000}Beijing") {
        LineKind::Entry(r) => {
            assert_eq!(r.code, "110000");
            assert_eq!(r.name, "Beijing");
        }
        _ => panic!("expected a region"),
    }
    let report = parse_lines(&lines(&["1\u{3000}a", "2\u{a0}\u{2003}b c"]));
    assert_eq!(report.regions.len(), 2);
    assert_eq!(report.regions[1].name, "b");
}

#[test]
fn trimming_removes_unicode_white_space() {
    assert_eq!(trim_line("\u{2003} a b \r\n"), "a b");
    assert_eq!(trim_line("   "), "");
    assert_eq!(trim_line("x"), "x");
}

#[test]
fn province_lookup_takes_first_match() {
    let regions = table(&[
        ("110101", "Dongcheng"),
        ("110000", "First"),
        ("110000", "Second"),
    ]);
    assert_eq!(find_province_name(&regions, "110101"), Some("First"));
    assert_eq!(find_province_name(&regions, "120101"), None);
}

#[test]
fn province_lookup_skips_the_code_itself() {
    let regions = table(&[("110000", "Beijing")]);
    assert_eq!(find_province_name(&regions, "110000"), None);
}

#[test]
fn city_lookup_matches_four_digit_prefix() {
    let regions = table(&[
        ("110000", "Beijing"),
        ("110200", "Other"),
        ("110100", "City"),
    ]);
    assert_eq!(find_city_name(&regions, "110105"), Some("City"));
    assert_eq!(find_city_name(&regions, "110301"), None);
    // a province code also ends with 00 and can stand as city
    assert_eq!(find_city_name(&regions, "110001"), Some("Beijing"));
}

#[test]
fn record_lines_are_code_comma_name() {
    let r = Region::new("110101", "Beijing/Dongcheng");
    assert_eq!(format_record(&r), "110101,Beijing/Dongcheng\n");
    let r = Region::new("1", "a,b");
    assert_eq!(format_record(&r), "1,a,b\n");
}

#[test]
fn rendering_keeps_order() {
    let records = table(&[("2", "b"), ("1", "a")]);
    assert_eq!(render_records(&records), "2,b\n1,a\n");
}

#[test]
fn running_twice_gives_identical_output() {
    let input = lines(&["110000 Beijing", "110100 City", "110101 Dongcheng", "bad"]);
    let run = || {
        let report = parse_lines(&input);
        render_records(&expand_all(&report.regions, "/"))
    };
    let first = run();
    let second = run();
    assert_eq!(first, second);
    assert_eq!(first, "110000,Beijing\n110100,Beijing/City\n110101,Beijing/City/Dongcheng\n");
}

#[test]
fn output_file_in_directory_is_prefixed() {
    assert_eq!(prefixed_file_name("regions.txt"), "_regions.txt");
    let report = parse_lines(&lines(&["110000 Beijing", "x", "110100 City"]));
    let text = render_records(&expand_all(&report.regions, "/"));
    assert_eq!(text.lines().count(), report.regions.len());
}

#[test]
fn short_leaf_codes_are_not_resolvable() {
    assert!(!code_is_resolvable("123"));
    assert!(!code_is_resolvable("5"));
    assert!(code_is_resolvable("00"));
    assert!(code_is_resolvable("1234"));
    assert!(all_codes_resolvable(&table(&[("110000", "a"), ("100", "b")])));
    assert!(!all_codes_resolvable(&table(&[("110000", "a"), ("101", "b")])));
}

#[test]
fn text_helpers() {
    assert!(has_trailing_zeros("110000", 4));
    assert!(!has_trailing_zeros("110100", 4));
    assert!(has_trailing_zeros("110100", 2));
    assert!(!has_trailing_zeros("0", 2));
    assert!(has_common_prefix("110100", "110101", 4));
    assert!(!has_common_prefix("120100", "110101", 2));
    assert!(!has_common_prefix("1", "110101", 2));
    assert!(same_text("110000", "110000"));
    assert!(!same_text("110000", "11000"));
}

#[test]
fn output_has_one_line_per_retained_region() {
    let input = lines(&["110000 Beijing", "110100 City", "", "abc def", "110101 Dongcheng", "7"]);
    let report = parse_lines(&input);
    let text = render_records(&expand_all(&report.regions, " > "));
    assert_eq!(text.matches('\n').count(), 3);
    assert_eq!(report.invalid_lines, vec![6]);
}
