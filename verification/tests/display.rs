use object_catalog::object::builders::{binary, empty, photo, plain_text};
use object_catalog::object::{DateConcerns, DateTime, Form, Object, Tag, TagSet};

fn exif(name: &str, value: &str) -> Tag {
    Tag::Exif { name: name.to_string(), value: value.to_string() }
}

#[test]
fn the_sentinel_is_shown_as_a_fixed_line() {
    assert_eq!(empty().display_text(), "--- empty object ---");
}

#[test]
fn plain_text_is_shown_as_its_text() {
    assert_eq!(plain_text("two\nlines \\ here".to_string()).display_text(), "two\nlines \\ here");
    assert_eq!(plain_text(String::new()).display_text(), "");
    let broken = Object { data: vec![b'a', 0xff], tags: TagSet::new(), form: Form::PlainText };
    assert_eq!(broken.display_text(), "a\u{fffd}");
}

#[test]
fn a_photo_is_shown_by_its_tags() {
    assert_eq!(photo(vec![1, 2]).display_text(), "Contents --- \n(image data)\nTags --- \n");
    let tags = TagSet::from_vec(vec![exif("Maker", "Acme")]);
    let object = Object { data: vec![1, 2], tags, form: Form::Photo };
    assert_eq!(object.display_text(), "Contents --- \n(image data)\nTags --- \nEXIF Maker | Acme");
    let date = Tag::Date {
        value: DateTime::new(Some(2001), Some(2), Some(3), None, None, None),
        concerns: DateConcerns::Edited,
    };
    let tags = TagSet::from_vec(vec![exif("Maker", "Acme"), Tag::Title("Dunes".to_string()), date]);
    let object = Object { data: vec![1, 2], tags, form: Form::Photo };
    assert_eq!(
        object.display_text(),
        "Contents --- \n(image data)\nTags --- \nEXIF Maker | Acme\nTitle | Dunes\nDate Edited | 2001-2-3 ##:##:##"
    );
}

#[test]
fn a_binary_object_is_shown_readable() {
    assert_eq!(binary(vec![0x41, 0xff, 0x42]).display_text(), "Contents --- \nA\\\\xffB\nTags --- \n");
    assert_eq!(binary(vec![]).display_text(), "Contents --- \n\nTags --- \n");
    let tags = TagSet::from_vec(vec![Tag::Category("c".to_string()), Tag::Author("a".to_string())]);
    let object = Object { data: b"x\\y".to_vec(), tags, form: Form::Binary };
    assert_eq!(object.display_text(), "Contents --- \nx\\\\y\nTags --- \nCategory | c\nAuthor | a");
}

#[test]
fn an_object_of_another_form_is_shown_like_a_binary_one() {
    let tags = TagSet::from_vec(vec![Tag::Title("t".to_string())]);
    let object = Object { data: vec![b'z', 0x80], tags, form: Form::Archive };
    assert_eq!(object.display_text(), "Contents --- \nz\\\\x80\nTags --- \nTitle | t");
    let object = Object { data: b"abc".to_vec(), tags: TagSet::new(), form: Form::OtherUnknown("font".to_string()) };
    assert_eq!(object.display_text(), "Contents --- \nabc\nTags --- \n");
}
