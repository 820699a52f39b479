use object_catalog::catalog::{import_file_bytes, truncate_dotted, Collection};
use object_catalog::object::builders::{binary, empty, photo, plain_text};
use object_catalog::object::{Form, Object, Tag, TagSet};

fn exif(name: &str, value: &str) -> Tag {
    Tag::Exif { name: name.to_string(), value: value.to_string() }
}

fn tags_of(object: &Object) -> Vec<Tag> {
    (0..object.tags.len()).map(|i| object.tags.get(i).clone()).collect()
}

fn small_tiff() -> Vec<u8> {
    let mut data = vec![0x4d, 0x4d, 0x00, 0x2a, 0x00, 0x00, 0x00, 0x08];
    data.extend_from_slice(&[0x00, 0x01]);
    data.extend_from_slice(&[0x01, 0x10, 0x00, 0x02, 0x00, 0x00, 0x00, 0x03, b'X', b'1', 0x00, 0x00]);
    data.extend_from_slice(&[0x00, 0x00, 0x00, 0x00]);
    data
}

#[test]
fn inserting_the_same_bytes_twice_keeps_the_first_object() {
    let mut objects = Collection::new();
    let first = Object {
        data: vec![1, 2, 3],
        tags: TagSet::from_vec(vec![Tag::Title("first".to_string())]),
        form: Form::Binary,
    };
    assert!(objects.insert(first));
    assert_eq!(objects.len(), 1);
    let second = Object {
        data: vec![1, 2, 3],
        tags: TagSet::from_vec(vec![exif("Maker", "Acme"), Tag::Title("second".to_string())]),
        form: Form::Photo,
    };
    assert!(!objects.insert(second));
    assert_eq!(objects.len(), 1);
    assert_eq!(objects.get(0).form, Form::Binary);
    assert_eq!(tags_of(objects.get(0)), vec![Tag::Title("first".to_string())]);
    assert!(!objects.insert(binary(vec![1, 2, 3])));
    assert_eq!(objects.len(), 1);
    assert_eq!(tags_of(objects.get(0)), vec![Tag::Title("first".to_string())]);
}

#[test]
fn a_collection_keeps_the_order_of_insertion() {
    let mut objects = Collection::new();
    assert!(objects.is_empty());
    assert!(objects.insert(binary(vec![3])));
    assert!(objects.insert(plain_text("one".to_string())));
    assert!(objects.insert(empty()));
    assert!(!objects.insert(binary(vec![])));
    assert!(!objects.is_empty());
    assert_eq!(objects.len(), 3);
    assert_eq!(objects.get(0).data, vec![3]);
    assert_eq!(objects.get(1).data, b"one");
    assert_eq!(objects.get(2).form, Form::Empty);
    assert_eq!(objects.position(&vec![3]), Some(0));
    assert_eq!(objects.position(&b"one".to_vec()), Some(1));
    assert_eq!(objects.position(&vec![]), Some(2));
    assert_eq!(objects.position(&vec![4]), None);
    assert!(objects.contains(&photo(vec![3])));
    assert!(!objects.contains(&binary(vec![3, 3])));
}

#[test]
fn removing_takes_out_the_object_with_that_payload() {
    let mut objects = Collection::from_vec(vec![binary(vec![1]), binary(vec![2]), binary(vec![3])]);
    assert!(!objects.remove(&binary(vec![4])));
    assert_eq!(objects.len(), 3);
    assert!(objects.remove(&photo(vec![2])));
    assert_eq!(objects.len(), 2);
    assert_eq!(objects.get(0).data, vec![1]);
    assert_eq!(objects.get(1).data, vec![3]);
    assert!(!objects.remove(&binary(vec![2])));
    assert!(objects.remove(&binary(vec![1])));
    assert!(objects.remove(&binary(vec![3])));
    assert!(objects.is_empty());
    assert!(objects.insert(binary(vec![2])));
    assert_eq!(objects.len(), 1);
}

#[test]
fn a_collection_from_a_list_keeps_the_first_of_equal_objects() {
    let objects = Collection::from_vec(vec![
        binary(vec![1]),
        plain_text("a".to_string()),
        photo(vec![1]),
        binary(b"a".to_vec()),
        binary(vec![2]),
    ]);
    assert_eq!(objects.len(), 3);
    assert_eq!(objects.get(0).form, Form::Binary);
    assert_eq!(objects.get(1).form, Form::PlainText);
    assert_eq!(objects.get(2).data, vec![2]);
    assert!(Collection::from_vec(vec![]).is_empty());
    let again = Collection::from_vec((0..objects.len()).map(|i| objects.get(i).clone()).collect());
    assert_eq!(again.len(), 3);
    for i in 0..3 {
        assert_eq!(again.get(i).data, objects.get(i).data);
        assert_eq!(again.get(i).form, objects.get(i).form);
        assert_eq!(tags_of(again.get(i)), tags_of(objects.get(i)));
    }
}

#[test]
fn selecting_filters_by_form_and_query() {
    let objects = Collection::from_vec(vec![
        plain_text("hello world".to_string()),
        binary(vec![0xab, 0xcd]),
        plain_text("goodbye".to_string()),
        binary(vec![0xab]),
        plain_text("hello again".to_string()),
        photo(vec![0x49]),
    ]);
    assert_eq!(objects.select(&Form::PlainText, "hello"), vec![0, 4]);
    assert_eq!(objects.select(&Form::PlainText, ""), vec![0, 2, 4]);
    assert_eq!(objects.select(&Form::PlainText, "ab"), Vec::<usize>::new());
    assert_eq!(objects.select(&Form::Binary, "ab"), vec![1, 3]);
    assert_eq!(objects.select(&Form::Binary, "cd"), vec![1]);
    assert_eq!(objects.select(&Form::Photo, ""), vec![5]);
    assert_eq!(objects.select(&Form::Photo, "x"), Vec::<usize>::new());
    assert_eq!(objects.select(&Form::Empty, ""), Vec::<usize>::new());
    assert_eq!(Collection::new().select(&Form::Binary, ""), Vec::<usize>::new());
}

#[test]
fn importing_text_makes_a_plain_text_object() {
    let mut objects = Collection::new();
    assert_eq!(import_file_bytes(b"some text".to_vec(), &mut objects), Some(()));
    assert_eq!(objects.len(), 1);
    assert_eq!(objects.get(0).form, Form::PlainText);
    assert_eq!(objects.get(0).data, b"some text");
    assert!(objects.get(0).tags.is_empty());
    assert_eq!(import_file_bytes(vec![], &mut objects), Some(()));
    assert_eq!(objects.len(), 2);
    assert_eq!(objects.get(1).form, Form::PlainText);
    assert!(objects.get(1).data.is_empty());
}

#[test]
fn importing_malformed_bytes_makes_a_binary_object() {
    let mut objects = Collection::new();
    assert_eq!(import_file_bytes(vec![0xff, 0x00, 0x41], &mut objects), Some(()));
    assert_eq!(objects.len(), 1);
    assert_eq!(objects.get(0).form, Form::Binary);
    assert_eq!(objects.get(0).data, vec![0xff, 0x00, 0x41]);
    assert!(objects.get(0).tags.is_empty());
}

#[test]
fn importing_a_tiff_makes_a_photo_with_its_metadata() {
    let mut objects = Collection::new();
    assert_eq!(import_file_bytes(small_tiff(), &mut objects), Some(()));
    assert_eq!(objects.len(), 1);
    assert_eq!(objects.get(0).form, Form::Photo);
    assert_eq!(objects.get(0).data, small_tiff());
    assert_eq!(tags_of(objects.get(0)), vec![exif("Model of image input equipment", "\"X1\"")]);
    assert!(objects.get(0).search("X1".to_string()));
    assert_eq!(import_file_bytes(b"MM\0*".to_vec(), &mut objects), Some(()));
    assert_eq!(objects.len(), 2);
    assert_eq!(objects.get(1).form, Form::Photo);
    assert!(objects.get(1).tags.is_empty());
}

#[test]
fn importing_the_same_bytes_twice_changes_nothing() {
    let mut objects = Collection::new();
    for _ in 0..2 {
        assert_eq!(import_file_bytes(b"twice".to_vec(), &mut objects), Some(()));
        assert_eq!(import_file_bytes(vec![0x80], &mut objects), Some(()));
        assert_eq!(import_file_bytes(small_tiff(), &mut objects), Some(()));
        assert_eq!(objects.len(), 3);
    }
    assert_eq!(objects.get(0).data, b"twice");
    assert_eq!(objects.get(1).data, vec![0x80]);
    assert_eq!(objects.get(2).data, small_tiff());
}

#[test]
fn a_short_label_is_kept() {
    assert_eq!(truncate_dotted("hello".to_string(), 5), "hello");
    assert_eq!(truncate_dotted("hello".to_string(), 128), "hello");
    assert_eq!(truncate_dotted(String::new(), 0), "");
    assert_eq!(truncate_dotted(String::new(), 10), "");
}

#[test]
fn a_long_label_is_cut_and_dotted() {
    assert_eq!(truncate_dotted("hello world".to_string(), 8), "hello\u{2026}");
    assert_eq!(truncate_dotted("hello".to_string(), 4), "h\u{2026}");
    assert_eq!(truncate_dotted("abcdefghij".to_string(), 9), "abcdef\u{2026}");
}

#[test]
fn a_limit_of_three_or_less_cuts_nothing() {
    assert_eq!(truncate_dotted("hello world".to_string(), 3), "hello world");
    assert_eq!(truncate_dotted("hello world".to_string(), 0), "hello world");
    assert_eq!(truncate_dotted("hello world".to_string(), 1), "hello world");
}

#[test]
fn a_label_is_measured_in_bytes_and_cut_in_characters() {
    assert_eq!(truncate_dotted("\u{e9}\u{e9}\u{e9}".to_string(), 5), "\u{e9}\u{e9}\u{2026}");
    assert_eq!(truncate_dotted("\u{e9}\u{e9}\u{e9}".to_string(), 6), "\u{e9}\u{e9}\u{e9}");
    assert_eq!(truncate_dotted("\u{1f600}\u{1f600}".to_string(), 7), "\u{1f600}\u{1f600}\u{2026}");
    assert_eq!(truncate_dotted("\u{1f600}\u{1f600}".to_string(), 4), "\u{1f600}\u{2026}");
}
