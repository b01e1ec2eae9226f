use rgbkit::file::{read_dir_filenames, read_file, ContainerError, DirEntryInfo, TypedObject};
use rgbkit::magic_numbers::MagicNumber;

fn all_kinds() -> Vec<MagicNumber> {
    vec![
        MagicNumber::Schema,
        MagicNumber::Genesis,
        MagicNumber::Transition,
        MagicNumber::Anchor,
        MagicNumber::Consignment,
        MagicNumber::Stash,
    ]
}

#[test]
fn tag_values_are_the_fixed_constants() {
    assert_eq!(MagicNumber::Schema.to_u32(), 0x18429ce3);
    assert_eq!(MagicNumber::Genesis.to_u32(), 0x2e91cbc0);
    assert_eq!(MagicNumber::Transition.to_u32(), 0xbf11926e);
    assert_eq!(MagicNumber::Anchor.to_u32(), 0xdd53b6f1);
    assert_eq!(MagicNumber::Consignment.to_u32(), 0x4c82bf53);
    assert_eq!(MagicNumber::Stash.to_u32(), 0xcd22a2cb);
}

#[test]
fn tags_are_pairwise_distinct() {
    for (i, a) in all_kinds().iter().enumerate() {
        for (j, b) in all_kinds().iter().enumerate() {
            if i != j {
                assert_ne!(a.to_u32(), b.to_u32());
            }
        }
    }
}

#[test]
fn every_tag_resolves_back_to_its_kind() {
    for kind in all_kinds() {
        assert_eq!(MagicNumber::try_from(kind.to_u32()), Ok(kind));
    }
}

#[test]
fn unknown_tags_are_rejected_with_their_value() {
    for value in [0u32, 1, 0xdeadbeef, 0x18429ce2, 0xffffffff] {
        assert_eq!(MagicNumber::try_from(value), Err(value));
    }
}

#[test]
fn genesis_file_bytes_are_exact() {
    let object = TypedObject { kind: MagicNumber::Genesis, data: vec![0x01, 0x02, 0x03] };
    let file = object.write_file();
    assert_eq!(file, vec![0x2e, 0x91, 0xcb, 0xc0, 0x01, 0x02, 0x03]);

    let back = TypedObject::read_file(MagicNumber::Genesis, &file).unwrap();
    assert_eq!(back.kind, MagicNumber::Genesis);
    assert_eq!(back.data, vec![0x01, 0x02, 0x03]);

    assert_eq!(
        TypedObject::read_file(MagicNumber::Schema, &file),
        Err(ContainerError::KindMismatch {
            found: MagicNumber::Genesis,
            expected: MagicNumber::Schema,
        })
    );
}

#[test]
fn round_trip_holds_for_every_kind() {
    let payload = vec![0xab, 0x00, 0x7f, 0xff, 0x10];
    for kind in all_kinds() {
        let object = TypedObject { kind, data: payload.clone() };
        let file = object.write_file();
        assert_eq!(file.len(), payload.len() + 4);
        let back = TypedObject::read_file(kind, &file).unwrap();
        assert_eq!(back.kind, kind);
        assert_eq!(back.data, payload);
    }
}

#[test]
fn schema_read_as_genesis_is_a_mismatch() {
    let object = TypedObject { kind: MagicNumber::Schema, data: vec![7, 8] };
    let file = object.write_file();
    assert_eq!(
        TypedObject::read_file(MagicNumber::Genesis, &file),
        Err(ContainerError::KindMismatch {
            found: MagicNumber::Schema,
            expected: MagicNumber::Genesis,
        })
    );
}

#[test]
fn short_data_fails_as_truncated() {
    for data in [vec![], vec![0x2e], vec![0x2e, 0x91], vec![0x2e, 0x91, 0xcb]] {
        assert_eq!(read_file(&data), Err(ContainerError::Truncated));
        assert_eq!(
            TypedObject::read_file(MagicNumber::Genesis, &data),
            Err(ContainerError::Truncated)
        );
    }
}

#[test]
fn unknown_magic_fails_with_the_value_found() {
    let data = vec![0x00, 0x00, 0x00, 0x00, 0x01];
    assert_eq!(
        TypedObject::read_file(MagicNumber::Genesis, &data),
        Err(ContainerError::UnknownMagic(0))
    );
    let data = vec![0xde, 0xad, 0xbe, 0xef];
    assert_eq!(
        TypedObject::read_file(MagicNumber::Schema, &data),
        Err(ContainerError::UnknownMagic(0xdeadbeef))
    );
}

#[test]
fn raw_read_does_not_validate_the_tag() {
    let data = vec![0xde, 0xad, 0xbe, 0xef, 0x09];
    let (magic, payload) = read_file(&data).unwrap();
    assert_eq!(magic, 0xdeadbeef);
    assert_eq!(payload, vec![0x09]);
}

#[test]
fn tag_only_file_has_empty_payload() {
    let data = vec![0xcd, 0x22, 0xa2, 0xcb];
    let (magic, payload) = read_file(&data).unwrap();
    assert_eq!(magic, MagicNumber::Stash.to_u32());
    assert!(payload.is_empty());

    let back = TypedObject::read_file(MagicNumber::Stash, &data).unwrap();
    assert_eq!(back.kind, MagicNumber::Stash);
    assert!(back.data.is_empty());
}

fn entry(name: &str, is_dir: bool) -> DirEntryInfo {
    DirEntryInfo { name: name.to_string(), is_dir }
}

#[test]
fn extension_filter_keeps_exactly_the_matching_files() {
    let entries = vec![
        entry("a.schema", false),
        entry("b.schema", false),
        entry("c.txt", false),
        entry("lib", true),
    ];
    assert_eq!(
        read_dir_filenames(&entries, Some("schema")),
        vec!["a.schema".to_string(), "b.schema".to_string()]
    );
    assert_eq!(
        read_dir_filenames(&entries, None),
        vec!["a.schema".to_string(), "b.schema".to_string(), "c.txt".to_string()]
    );
}

#[test]
fn directories_are_skipped_even_when_their_name_matches() {
    let entries = vec![entry("x.schema", true), entry("y.schema", false)];
    assert_eq!(read_dir_filenames(&entries, Some("schema")), vec!["y.schema".to_string()]);
}

#[test]
fn files_without_an_extension_match_only_the_empty_filter() {
    let entries = vec![
        entry("noext", false),
        entry(".hidden", false),
        entry("trailing.", false),
        entry("plain.txt", false),
    ];
    assert_eq!(
        read_dir_filenames(&entries, Some("")),
        vec!["noext".to_string(), ".hidden".to_string(), "trailing.".to_string()]
    );
    assert_eq!(read_dir_filenames(&entries, Some("hidden")), Vec::<String>::new());
}

#[test]
fn extension_is_everything_after_the_last_dot() {
    let entries = vec![entry("a.tar.gz", false), entry("b.gz", false), entry("c.tar", false)];
    assert_eq!(
        read_dir_filenames(&entries, Some("gz")),
        vec!["a.tar.gz".to_string(), "b.gz".to_string()]
    );
    assert_eq!(read_dir_filenames(&entries, Some("tar")), vec!["c.tar".to_string()]);
}

#[test]
fn extension_matching_is_case_sensitive() {
    let entries = vec![entry("a.Schema", false), entry("b.schema", false)];
    assert_eq!(read_dir_filenames(&entries, Some("schema")), vec!["b.schema".to_string()]);
}

#[test]
fn extension_matches_is_exact() {
    assert!(rgbkit::file::extension_matches("a.schema", "schema"));
    assert!(!rgbkit::file::extension_matches("a.schema", "schem"));
    assert!(!rgbkit::file::extension_matches("a.schema", "schemaa"));
    assert!(!rgbkit::file::extension_matches("aschema", "schema"));
    assert!(rgbkit::file::extension_matches("aschema", ""));
}
