use hotreload::differ::{classify, ChangeClassification};

fn class(old: &str, new: &str) -> ChangeClassification {
    classify(b"src/main.rs", old.as_bytes(), new.as_bytes())
}

#[test]
fn identical_text_is_no_change() {
    let text = "fn main() { region!(\"hello\") }\n";
    assert_eq!(class(text, text), ChangeClassification::NoChange);
}

#[test]
fn identical_text_without_sites_is_no_change() {
    let text = "fn main() {}\n";
    assert_eq!(class(text, text), ChangeClassification::NoChange);
}

#[test]
fn template_body_edit_yields_one_update() {
    let old = "fn main() { region!(\"hello\") }\n";
    let new = "fn main() { region!(\"hello world\") }\n";
    match class(old, new) {
        ChangeClassification::TemplateUpdates(msgs) => {
            assert_eq!(msgs.len(), 1);
            assert_eq!(msgs[0].location.file, b"src/main.rs".to_vec());
            assert_eq!(msgs[0].location.line, 1);
            assert_eq!(msgs[0].location.col, 12);
            assert_eq!(msgs[0].new_text, b"hello world".to_vec());
        },
        other => panic!("expected updates, got {:?}", other),
    }
}

#[test]
fn update_payload_preserves_whitespace() {
    let old = "fn view() {\n    region!(\"a\")\n}\n";
    let new = "fn view() {\n    region!(\"  two  words \n  kept verbatim \")\n}\n";
    match class(old, new) {
        ChangeClassification::TemplateUpdates(msgs) => {
            assert_eq!(msgs.len(), 1);
            assert_eq!(msgs[0].location.line, 2);
            assert_eq!(msgs[0].location.col, 4);
            assert_eq!(msgs[0].new_text, b"  two  words \n  kept verbatim ".to_vec());
        },
        other => panic!("expected updates, got {:?}", other),
    }
}

#[test]
fn added_call_site_is_structural() {
    let old = "fn main() { region!(\"a\") }\n";
    let new = "fn main() { region!(\"a\") region!(\"b\") }\n";
    assert_eq!(class(old, new), ChangeClassification::StructuralChange);
}

#[test]
fn removed_call_site_is_structural() {
    let old = "fn main() { region!(\"a\") region!(\"b\") }\n";
    let new = "fn main() { region!(\"a\") }\n";
    assert_eq!(class(old, new), ChangeClassification::StructuralChange);
}

#[test]
fn non_template_edit_is_structural() {
    let old = "fn main() { region!(\"a\") }\n";
    let new = "fn main(x: u8) { region!(\"a\") }\n";
    assert_eq!(class(old, new), ChangeClassification::StructuralChange);
}

#[test]
fn moved_call_site_is_structural() {
    let old = "let a = 1;\nregion!(\"x\")\nlet b = 2;\n";
    let new = "let a = 1;\nlet b = 2;\nregion!(\"x\")\n";
    assert_eq!(class(old, new), ChangeClassification::StructuralChange);
}

#[test]
fn unparsable_new_text_is_structural() {
    let old = "fn main() { region!(\"a\") }\n";
    let new = "fn main() { region!(\"a }\n";
    assert_eq!(class(old, new), ChangeClassification::StructuralChange);
}

#[test]
fn unparsable_old_text_is_structural() {
    let old = "fn main() { region!(oops) }\n";
    let new = "fn main() { region!(\"a\") }\n";
    assert_eq!(class(old, new), ChangeClassification::StructuralChange);
}

#[test]
fn second_site_edit_keeps_first_location() {
    let old = "fn a() { region!(\"one\") }\nfn b() { region!(\"two\") }\n";
    let new = "fn a() { region!(\"one\") }\nfn b() { region!(\"TWO\") }\n";
    match class(old, new) {
        ChangeClassification::TemplateUpdates(msgs) => {
            assert_eq!(msgs.len(), 1);
            assert_eq!(msgs[0].location.line, 2);
            assert_eq!(msgs[0].location.col, 9);
            assert_eq!(msgs[0].new_text, b"TWO".to_vec());
        },
        other => panic!("expected updates, got {:?}", other),
    }
    // The first site's location, recomputed from either version, is the
    // same and differs from the patched site's.
    let old_unit = hotreload::parse::parse(old.as_bytes()).unwrap();
    let new_unit = hotreload::parse::parse(new.as_bytes()).unwrap();
    assert_eq!(old_unit.sites[0].line, new_unit.sites[0].line);
    assert_eq!(old_unit.sites[0].col, new_unit.sites[0].col);
    assert_ne!(old_unit.sites[0].line, old_unit.sites[1].line);
}

#[test]
fn both_bodies_edited_yield_two_updates() {
    let old = "region!(\"a\") region!(\"b\")\n";
    let new = "region!(\"A\") region!(\"B\")\n";
    match class(old, new) {
        ChangeClassification::TemplateUpdates(msgs) => {
            assert_eq!(msgs.len(), 2);
            assert_eq!(msgs[0].new_text, b"A".to_vec());
            assert_eq!(msgs[1].new_text, b"B".to_vec());
            assert_eq!(msgs[0].location.line, 1);
            assert_eq!(msgs[1].location.line, 1);
            assert_eq!(msgs[0].location.col, 0);
            assert_eq!(msgs[1].location.col, 13);
        },
        other => panic!("expected updates, got {:?}", other),
    }
}

#[test]
fn empty_body_gains_content() {
    let old = "region!(\"\")\n";
    let new = "region!(\"now\")\n";
    match class(old, new) {
        ChangeClassification::TemplateUpdates(msgs) => {
            assert_eq!(msgs.len(), 1);
            assert_eq!(msgs[0].new_text, b"now".to_vec());
        },
        other => panic!("expected updates, got {:?}", other),
    }
}
