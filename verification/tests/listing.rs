use mditems::item::{
    compare_items, compare_numbers, compare_strings, date_added_value, tags_sort_key, Item,
    ItemKind, ReadDirOptions, SortMode,
};
use mditems::mditem::{apply_attr, AttrTarget, MdItemAttrs, MdItemUserTag};
use mditems::sorting::{filter_children, sort_items};
use mditems::text::Order;
use mditems::utils::{
    is_dotfile, to_bool_opt, to_string_opt, to_string_vec, to_u64_opt, to_unix_seconds_opt,
    RawValue,
};

fn empty_attrs() -> MdItemAttrs {
    MdItemAttrs::default()
}

fn plain_item(name: &str, typ: ItemKind, size: u64) -> Item {
    Item {
        typ,
        name: name.to_string(),
        path: format!("/d/{name}"),
        size,
        md_attrs: empty_attrs(),
    }
}

fn names(items: &[Item]) -> Vec<&str> {
    items.iter().map(|i| i.name.as_str()).collect()
}

#[test]
fn sort_mode_tokens() {
    assert!(matches!(SortMode::from_str("name-asc"), Some(SortMode::NameAsc)));
    assert!(matches!(SortMode::from_str("kind-asc"), Some(SortMode::KindAsc)));
    assert!(matches!(
        SortMode::from_str("last-opened-asc"),
        Some(SortMode::LastOpenedAsc)
    ));
    assert!(matches!(SortMode::from_str("added-asc"), Some(SortMode::AddedAsc)));
    assert!(matches!(
        SortMode::from_str("modified-asc"),
        Some(SortMode::ModifiedAsc)
    ));
    assert!(matches!(SortMode::from_str("created-asc"), Some(SortMode::CreatedAsc)));
    assert!(matches!(SortMode::from_str("size-asc"), Some(SortMode::SizeAsc)));
    assert!(matches!(SortMode::from_str("tags-asc"), Some(SortMode::TagsAsc)));
    assert!(SortMode::from_str("name-desc").is_none());
    assert!(SortMode::from_str("").is_none());
}

#[test]
fn default_options() {
    let o = ReadDirOptions::default();
    assert!(o.skip_dotfiles);
    assert!(o.sort_directories_first);
    assert!(matches!(o.sort_mode, SortMode::NameAsc));
    assert!(matches!(SortMode::default(), SortMode::NameAsc));
}

#[test]
fn dotfile_names() {
    assert!(is_dotfile(".hidden"));
    assert!(is_dotfile("."));
    assert!(!is_dotfile("hidden"));
    assert!(!is_dotfile(""));
    assert!(!is_dotfile("a.txt"));
}

#[test]
fn filter_drops_dotfiles_only_when_asked() {
    let names: Vec<String> = vec![
        ".hidden".to_string(),
        "b.txt".to_string(),
        "A".to_string(),
        "a.txt".to_string(),
    ];
    let kept = filter_children(names.clone(), true);
    assert_eq!(kept, vec!["b.txt", "A", "a.txt"]);
    let all = filter_children(names, false);
    assert_eq!(all.len(), 4);
}

#[test]
fn filter_count_matches_children_minus_dotfiles() {
    let names: Vec<String> = vec![
        ".a".to_string(),
        "x".to_string(),
        ".b".to_string(),
        "y".to_string(),
        "z".to_string(),
    ];
    let kept = filter_children(names, true);
    assert_eq!(kept.len(), 5 - 2);
}

#[test]
fn tag_parse_with_color() {
    let t = MdItemUserTag::from_raw("Work\n2".to_string());
    assert_eq!(t.name, "Work");
    assert_eq!(t.color_index, Some(2));
}

#[test]
fn tag_parse_bad_color() {
    let t = MdItemUserTag::from_raw("Home\nxx".to_string());
    assert_eq!(t.name, "Home");
    assert_eq!(t.color_index, None);
}

#[test]
fn tag_parse_no_separator() {
    let t = MdItemUserTag::from_raw("Solo".to_string());
    assert_eq!(t.name, "Solo");
    assert_eq!(t.color_index, None);
}

#[test]
fn tag_parse_trims_name_and_overflow_color() {
    let t = MdItemUserTag::from_raw("  Spaced  \n300".to_string());
    assert_eq!(t.name, "Spaced");
    assert_eq!(t.color_index, None);
    let t = MdItemUserTag::from_raw("P\n+7".to_string());
    assert_eq!(t.name, "P");
    assert_eq!(t.color_index, Some(7));
    let t = MdItemUserTag::from_raw("".to_string());
    assert_eq!(t.name, "");
    assert_eq!(t.color_index, None);
}

#[test]
fn date_normalization_round_trip() {
    assert_eq!(to_unix_seconds_opt(&RawValue::Date(10)), Some(978_307_210));
    assert_eq!(to_unix_seconds_opt(&RawValue::Date(0)), Some(978_307_200));
    assert_eq!(to_unix_seconds_opt(&RawValue::Date(-978_307_201)), None);
    assert_eq!(to_unix_seconds_opt(&RawValue::Date(-978_307_200)), Some(0));
}

#[test]
fn date_from_number_and_text() {
    assert_eq!(to_unix_seconds_opt(&RawValue::Number(42)), Some(42));
    assert_eq!(to_unix_seconds_opt(&RawValue::Number(-1)), None);
    assert_eq!(
        to_unix_seconds_opt(&RawValue::Text(" 1234 ".to_string())),
        Some(1234)
    );
    assert_eq!(to_unix_seconds_opt(&RawValue::Text("+7".to_string())), Some(7));
    assert_eq!(to_unix_seconds_opt(&RawValue::Text("abc".to_string())), None);
    assert_eq!(to_unix_seconds_opt(&RawValue::Text("".to_string())), None);
    assert_eq!(
        to_unix_seconds_opt(&RawValue::Text("99999999999999999999999".to_string())),
        None
    );
    assert_eq!(to_unix_seconds_opt(&RawValue::Boolean(true)), None);
    assert_eq!(to_unix_seconds_opt(&RawValue::Absent), None);
}

#[test]
fn text_parse_at_the_u64_boundary() {
    assert_eq!(
        to_unix_seconds_opt(&RawValue::Text("18446744073709551615".to_string())),
        Some(u64::MAX)
    );
    assert_eq!(
        to_unix_seconds_opt(&RawValue::Text("18446744073709551616".to_string())),
        None
    );
    assert_eq!(to_unix_seconds_opt(&RawValue::Text("0".to_string())), Some(0));
    assert_eq!(to_unix_seconds_opt(&RawValue::Text("+".to_string())), None);
    assert_eq!(to_unix_seconds_opt(&RawValue::Text("1 2".to_string())), None);
}

#[test]
fn normalizer_shapes_degrade_to_absent() {
    assert_eq!(to_string_opt(RawValue::Text("x".to_string())), Some("x".to_string()));
    assert_eq!(to_string_opt(RawValue::Number(3)), None);
    assert_eq!(to_bool_opt(&RawValue::Boolean(true)), Some(true));
    assert_eq!(to_bool_opt(&RawValue::Text("true".to_string())), None);
    assert_eq!(to_u64_opt(&RawValue::Number(9)), Some(9));
    assert_eq!(to_u64_opt(&RawValue::Number(-9)), None);
    assert_eq!(to_u64_opt(&RawValue::Date(9)), None);
    let l = to_string_vec(RawValue::TextList(vec!["a".to_string(), "b".to_string()]));
    assert_eq!(l, vec!["a", "b"]);
    let one = to_string_vec(RawValue::Text("solo".to_string()));
    assert_eq!(one, vec!["solo"]);
    let none = to_string_vec(RawValue::Boolean(false));
    assert!(none.is_empty());
}

#[test]
fn apply_attr_targets_fields() {
    let mut attrs = MdItemAttrs::default();
    apply_attr(
        &mut attrs,
        AttrTarget::UserTags,
        RawValue::TextList(vec!["Work\n2".to_string(), "Home".to_string()]),
    );
    apply_attr(&mut attrs, AttrTarget::ContentModificationDate, RawValue::Date(5));
    apply_attr(&mut attrs, AttrTarget::Kind, RawValue::Text("Folder".to_string()));
    apply_attr(&mut attrs, AttrTarget::FsInvisible, RawValue::Boolean(true));
    apply_attr(&mut attrs, AttrTarget::LastUsedDate, RawValue::Number(77));
    assert_eq!(attrs.user_tags.len(), 2);
    assert_eq!(attrs.user_tags[0].name, "Work");
    assert_eq!(attrs.user_tags[0].color_index, Some(2));
    assert_eq!(attrs.user_tags[1].name, "Home");
    assert_eq!(attrs.user_tags[1].color_index, None);
    assert_eq!(attrs.content_modification_date, Some(978_307_205));
    assert_eq!(attrs.kind, Some("Folder".to_string()));
    assert_eq!(attrs.fs_invisible, Some(true));
    assert_eq!(attrs.last_used_date, Some(77));
    assert_eq!(attrs.attribute_change_date, None);
    assert_eq!(attrs.content_creation_date, None);
    assert_eq!(attrs.content_type, None);
    assert_eq!(attrs.finder_comment, None);
    assert_eq!(attrs.fs_content_change_date, None);
    assert_eq!(attrs.fs_creation_date, None);
}

#[test]
fn string_comparison_is_case_insensitive() {
    assert_eq!(compare_strings(Some("A"), Some("a")), Order::Equal);
    assert_eq!(compare_strings(Some("b"), Some("A")), Order::Greater);
    assert_eq!(compare_strings(Some("Apple"), Some("banana")), Order::Less);
    assert_eq!(compare_strings(Some(""), Some("")), Order::Equal);
}

#[test]
fn absent_strings_order_last() {
    assert_eq!(compare_strings(Some("z"), None), Order::Less);
    assert_eq!(compare_strings(None, Some("a")), Order::Greater);
    assert_eq!(compare_strings(None, None), Order::Equal);
}

#[test]
fn absent_numbers_order_last() {
    assert_eq!(compare_numbers(Some(5), Some(9)), Order::Less);
    assert_eq!(compare_numbers(Some(u64::MAX), None), Order::Less);
    assert_eq!(compare_numbers(None, Some(0)), Order::Greater);
    assert_eq!(compare_numbers(None, None), Order::Equal);
}

#[test]
fn date_added_falls_back_to_creation() {
    let mut a = plain_item("a", ItemKind::File, 0);
    a.md_attrs.fs_creation_date = Some(3);
    assert_eq!(date_added_value(&a), Some(3));
    a.md_attrs.fs_content_change_date = Some(8);
    assert_eq!(date_added_value(&a), Some(8));
    let b = plain_item("b", ItemKind::File, 0);
    assert_eq!(date_added_value(&b), None);
}

#[test]
fn tags_key_joins_names_with_nul() {
    let tags = vec![
        MdItemUserTag {
            name: "b".to_string(),
            color_index: None,
        },
        MdItemUserTag {
            name: "a".to_string(),
            color_index: Some(1),
        },
    ];
    assert_eq!(tags_sort_key(&tags), "b\u{0}a");
    let one = vec![MdItemUserTag {
        name: "a".to_string(),
        color_index: None,
    }];
    assert_eq!(tags_sort_key(&one), "a");
    let none: Vec<MdItemUserTag> = Vec::new();
    assert_eq!(tags_sort_key(&none), "\u{ffff}");
}

#[test]
fn tags_order_untagged_last() {
    let mut a = plain_item("n1", ItemKind::File, 0);
    a.md_attrs.user_tags = vec![
        MdItemUserTag {
            name: "b".to_string(),
            color_index: None,
        },
        MdItemUserTag {
            name: "a".to_string(),
            color_index: None,
        },
    ];
    let mut b = plain_item("n2", ItemKind::File, 0);
    b.md_attrs.user_tags = vec![MdItemUserTag {
        name: "a".to_string(),
        color_index: None,
    }];
    let c = plain_item("n0", ItemKind::File, 0);
    // "a" orders before "b\0a"; the untagged entry orders after both.
    assert_eq!(compare_items(&b, &a, SortMode::TagsAsc), Order::Less);
    assert_eq!(compare_items(&a, &c, SortMode::TagsAsc), Order::Less);
    assert_eq!(compare_items(&b, &c, SortMode::TagsAsc), Order::Less);
}

#[test]
fn tie_break_is_case_sensitive_name_order() {
    let a = plain_item("abc", ItemKind::File, 7);
    let b = plain_item("Abc", ItemKind::File, 7);
    // Same size; the tie-break compares names by code point: 'A' < 'a'.
    assert_eq!(compare_items(&a, &b, SortMode::SizeAsc), Order::Greater);
    assert_eq!(compare_items(&b, &a, SortMode::SizeAsc), Order::Less);
}

#[test]
fn absent_key_orders_after_present_same_class() {
    let mut a = plain_item("x", ItemKind::File, 0);
    a.md_attrs.content_modification_date = Some(1);
    let b = plain_item("a", ItemKind::File, 0);
    // Despite "a" < "x" by name, the present key wins under modified-asc.
    assert_eq!(compare_items(&a, &b, SortMode::ModifiedAsc), Order::Less);
}

#[test]
fn directories_first_for_every_mode() {
    let modes = [
        SortMode::NameAsc,
        SortMode::KindAsc,
        SortMode::LastOpenedAsc,
        SortMode::AddedAsc,
        SortMode::ModifiedAsc,
        SortMode::CreatedAsc,
        SortMode::SizeAsc,
        SortMode::TagsAsc,
    ];
    for mode in modes {
        let mut items = vec![
            plain_item("zz", ItemKind::File, 1),
            plain_item("d2", ItemKind::Directory, 0),
            plain_item("aa", ItemKind::File, 2),
            plain_item("d1", ItemKind::Directory, 0),
        ];
        let options = ReadDirOptions {
            skip_dotfiles: false,
            sort_directories_first: true,
            sort_mode: mode,
        };
        sort_items(&mut items, &options);
        assert!(matches!(items[0].typ, ItemKind::Directory));
        assert!(matches!(items[1].typ, ItemKind::Directory));
        assert!(matches!(items[2].typ, ItemKind::File));
        assert!(matches!(items[3].typ, ItemKind::File));
    }
}

#[test]
fn sort_is_deterministic_across_input_orders() {
    let build = |order: &[usize]| -> Vec<Item> {
        let specs = [
            ("b", ItemKind::File, 10u64),
            ("A", ItemKind::Directory, 0u64),
            ("a", ItemKind::File, 5u64),
            ("c", ItemKind::File, 5u64),
        ];
        order
            .iter()
            .map(|&k| {
                let (n, t, s) = specs[k];
                plain_item(n, t, s)
            })
            .collect()
    };
    let options = ReadDirOptions {
        skip_dotfiles: false,
        sort_directories_first: true,
        sort_mode: SortMode::SizeAsc,
    };
    let mut first = build(&[0, 1, 2, 3]);
    let mut second = build(&[3, 2, 1, 0]);
    sort_items(&mut first, &options);
    sort_items(&mut second, &options);
    assert_eq!(names(&first), names(&second));
}

#[test]
fn listing_name_asc_scenario() {
    // Children: ".hidden" (file), "b.txt" (file, 10), "A" (dir),
    // "a.txt" (file, 5, tag "Work"/2); skip dotfiles, directories first.
    let children: Vec<String> = vec![
        ".hidden".to_string(),
        "b.txt".to_string(),
        "A".to_string(),
        "a.txt".to_string(),
    ];
    let kept = filter_children(children, true);
    assert_eq!(kept, vec!["b.txt", "A", "a.txt"]);
    let mut items: Vec<Item> = kept
        .iter()
        .map(|n| match n.as_str() {
            "b.txt" => plain_item("b.txt", ItemKind::File, 10),
            "A" => plain_item("A", ItemKind::Directory, 0),
            _ => {
                let mut it = plain_item("a.txt", ItemKind::File, 5);
                it.md_attrs.user_tags = vec![MdItemUserTag {
                    name: "Work".to_string(),
                    color_index: Some(2),
                }];
                it
            },
        })
        .collect();
    let options = ReadDirOptions {
        skip_dotfiles: true,
        sort_directories_first: true,
        sort_mode: SortMode::NameAsc,
    };
    sort_items(&mut items, &options);
    assert_eq!(names(&items), vec!["A", "a.txt", "b.txt"]);
}

#[test]
fn listing_size_asc_scenario() {
    // Same children, size-asc, no directories-first, dotfiles kept.
    let mut items = vec![
        plain_item(".hidden", ItemKind::File, 0),
        plain_item("b.txt", ItemKind::File, 10),
        plain_item("A", ItemKind::Directory, 0),
        plain_item("a.txt", ItemKind::File, 5),
    ];
    let options = ReadDirOptions {
        skip_dotfiles: false,
        sort_directories_first: false,
        sort_mode: SortMode::SizeAsc,
    };
    sort_items(&mut items, &options);
    // ".hidden" and "a.txt" precede "b.txt"; "A" (size 0) places by
    // size, tied with ".hidden" and broken by name: '.' < 'A'.
    assert_eq!(names(&items), vec![".hidden", "A", "a.txt", "b.txt"]);
}

#[test]
fn kind_label_ordering_with_absent() {
    let mut a = plain_item("m", ItemKind::File, 0);
    a.md_attrs.kind = Some("Archive".to_string());
    let mut b = plain_item("n", ItemKind::File, 0);
    b.md_attrs.kind = Some("folder".to_string());
    let c = plain_item("b", ItemKind::File, 0);
    let mut items = vec![
        plain_item("n", ItemKind::File, 0),
        plain_item("m", ItemKind::File, 0),
        plain_item("b", ItemKind::File, 0),
    ];
    items[0].md_attrs.kind = Some("folder".to_string());
    items[1].md_attrs.kind = Some("Archive".to_string());
    let options = ReadDirOptions {
        skip_dotfiles: false,
        sort_directories_first: false,
        sort_mode: SortMode::KindAsc,
    };
    sort_items(&mut items, &options);
    assert_eq!(names(&items), vec!["m", "n", "b"]);
    assert_eq!(compare_items(&a, &b, SortMode::KindAsc), Order::Less);
    assert_eq!(compare_items(&b, &c, SortMode::KindAsc), Order::Less);
}

#[test]
fn last_opened_and_created_orderings() {
    let mut a = plain_item("q", ItemKind::File, 0);
    a.md_attrs.last_used_date = Some(100);
    let mut b = plain_item("p", ItemKind::File, 0);
    b.md_attrs.last_used_date = Some(200);
    assert_eq!(compare_items(&a, &b, SortMode::LastOpenedAsc), Order::Less);
    let mut c = plain_item("c", ItemKind::File, 0);
    c.md_attrs.fs_creation_date = Some(50);
    let mut d = plain_item("d", ItemKind::File, 0);
    d.md_attrs.fs_creation_date = Some(40);
    assert_eq!(compare_items(&c, &d, SortMode::CreatedAsc), Order::Greater);
}

#[test]
fn added_ordering_uses_fallback() {
    let mut a = plain_item("a", ItemKind::File, 0);
    a.md_attrs.fs_creation_date = Some(10);
    let mut b = plain_item("b", ItemKind::File, 0);
    b.md_attrs.fs_content_change_date = Some(5);
    b.md_attrs.fs_creation_date = Some(99);
    // a's added key is 10 (fallback); b's is 5.
    assert_eq!(compare_items(&a, &b, SortMode::AddedAsc), Order::Greater);
}
