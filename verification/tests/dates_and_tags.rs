use object_catalog::object::{DateConcerns, DateTime, Location, Tag, TagSet};

fn exif(name: &str, value: &str) -> Tag {
    Tag::Exif { name: name.to_string(), value: value.to_string() }
}

#[test]
fn a_date_without_components_is_all_placeholders() {
    let date = DateTime::new(None, None, None, None, None, None);
    assert_eq!(date.to_string(), "####-##-## ##:##:##");
}

#[test]
fn a_date_with_a_year_only() {
    let date = DateTime::new(Some(2024), None, None, None, None, None);
    assert_eq!(date.to_string(), "2024-##-## ##:##:##");
}

#[test]
fn a_full_date_is_written_without_padding() {
    let date = DateTime::new(Some(2024), Some(12), Some(31), Some(23), Some(59), Some(58));
    assert_eq!(date.to_string(), "2024-12-31 23:59:58");
    let date = DateTime::new(Some(987), Some(1), Some(2), Some(3), Some(4), Some(5));
    assert_eq!(date.to_string(), "987-1-2 3:4:5");
    let date = DateTime::new(Some(0), Some(0), Some(0), Some(0), Some(0), Some(0));
    assert_eq!(date.to_string(), "0-0-0 0:0:0");
}

#[test]
fn a_date_with_some_components() {
    let date = DateTime::new(None, Some(7), None, Some(9), None, Some(255));
    assert_eq!(date.to_string(), "####-7-## 9:##:255");
    let date = DateTime::new(Some(-44), Some(3), Some(15), None, None, None);
    assert_eq!(date.to_string(), "-44-3-15 ##:##:##");
    let date = DateTime::new(Some(i32::MIN), None, None, None, None, None);
    assert_eq!(date.to_string(), "-2147483648-##-## ##:##:##");
    let date = DateTime::new(Some(i32::MAX), None, None, None, None, None);
    assert_eq!(date.to_string(), "2147483647-##-## ##:##:##");
}

#[test]
fn a_date_gives_its_components_back() {
    let date = DateTime::new(Some(2024), Some(2), None, Some(4), None, Some(6));
    assert_eq!(date.year(), Some(2024));
    assert_eq!(date.month(), Some(2));
    assert_eq!(date.day(), None);
    assert_eq!(date.hour(), Some(4));
    assert_eq!(date.minute(), None);
    assert_eq!(date.second(), Some(6));
    assert_eq!(date.clone(), date);
    assert_ne!(date, DateTime::new(Some(2024), Some(2), Some(0), Some(4), None, Some(6)));
}

#[test]
fn date_concerns_as_text() {
    assert_eq!(DateConcerns::Created.to_string(), "Created");
    assert_eq!(DateConcerns::Added.to_string(), "Added");
    assert_eq!(DateConcerns::Edited.to_string(), "Edited");
    assert_eq!(DateConcerns::OtherUnknown("Scanned".to_string()).to_string(), "Scanned");
    assert_eq!(DateConcerns::OtherUnknown(String::new()).to_string(), "");
    assert_ne!(DateConcerns::OtherUnknown("Created".to_string()), DateConcerns::Created);
    assert_eq!(DateConcerns::Edited.clone(), DateConcerns::Edited);
}

#[test]
fn tags_as_text() {
    assert_eq!(Tag::Category("holiday".to_string()).to_string(), "Category | holiday");
    assert_eq!(exif("Maker", "Acme").to_string(), "EXIF Maker | Acme");
    assert_eq!(Tag::Title("Dunes".to_string()).to_string(), "Title | Dunes");
    assert_eq!(Tag::Author("F. H.".to_string()).to_string(), "Author | F. H.");
    let date = Tag::Date {
        value: DateTime::new(Some(1965), Some(8), None, None, None, None),
        concerns: DateConcerns::Created,
    };
    assert_eq!(date.to_string(), "Date Created | 1965-8-## ##:##:##");
    let date = Tag::Date {
        value: DateTime::new(None, None, None, None, None, None),
        concerns: DateConcerns::OtherUnknown("Lost".to_string()),
    };
    assert_eq!(date.to_string(), "Date Lost | ####-##-## ##:##:##");
    let other = Tag::OtherUnknown { name: "colour".to_string(), value: "ochre".to_string() };
    assert_eq!(other.to_string(), "Other colour | ochre");
    assert_eq!(Tag::Title(String::new()).to_string(), "Title | ");
}

#[test]
fn tags_compare_by_kind_and_fields() {
    assert_eq!(exif("a", "b"), exif("a", "b"));
    assert_ne!(exif("a", "b"), exif("a", "c"));
    assert_ne!(exif("a", "b"), exif("c", "b"));
    assert_ne!(exif("a", "b"), Tag::OtherUnknown { name: "a".to_string(), value: "b".to_string() });
    assert_ne!(Tag::Title("x".to_string()), Tag::Author("x".to_string()));
    assert_ne!(Tag::Title("x".to_string()), Tag::Category("x".to_string()));
    let created = |year| Tag::Date {
        value: DateTime::new(year, None, None, None, None, None),
        concerns: DateConcerns::Created,
    };
    assert_eq!(created(Some(1)), created(Some(1)));
    assert_ne!(created(Some(1)), created(None));
    assert_ne!(
        created(None),
        Tag::Date {
            value: DateTime::new(None, None, None, None, None, None),
            concerns: DateConcerns::Added
        }
    );
}

#[test]
fn a_tag_set_holds_no_tag_twice() {
    let mut tags = TagSet::new();
    assert!(tags.is_empty());
    assert_eq!(tags.len(), 0);
    assert!(tags.insert(exif("a", "1")));
    assert!(tags.insert(exif("b", "2")));
    assert!(!tags.insert(exif("a", "1")));
    assert!(tags.insert(Tag::Title("a".to_string())));
    assert_eq!(tags.len(), 3);
    assert!(!tags.is_empty());
    assert!(tags.contains(&exif("b", "2")));
    assert!(tags.contains(&Tag::Title("a".to_string())));
    assert!(!tags.contains(&exif("a", "2")));
    assert_eq!(tags.get(0), &exif("a", "1"));
    assert_eq!(tags.get(1), &exif("b", "2"));
    assert_eq!(tags.get(2), &Tag::Title("a".to_string()));
}

#[test]
fn a_tag_set_from_a_list_keeps_the_first_of_equal_tags() {
    let tags = TagSet::from_vec(vec![exif("a", "1"), exif("b", "2"), exif("a", "1"), exif("c", "3"), exif("b", "2")]);
    assert_eq!(tags.len(), 3);
    assert_eq!(tags.get(0), &exif("a", "1"));
    assert_eq!(tags.get(1), &exif("b", "2"));
    assert_eq!(tags.get(2), &exif("c", "3"));
    assert!(TagSet::from_vec(vec![]).is_empty());
    let copy = tags.clone();
    assert_eq!(copy.len(), 3);
    assert_eq!(copy.get(2), &exif("c", "3"));
    let again = TagSet::from_vec((0..copy.len()).map(|i| copy.get(i).clone()).collect());
    assert_eq!(again.len(), 3);
    assert_eq!(again.get(0), &exif("a", "1"));
    assert_eq!(again.get(1), &exif("b", "2"));
    assert_eq!(again.get(2), &exif("c", "3"));
}

#[test]
fn a_location_gives_its_parts_back() {
    let place = Location::new(Some("Tr\u{f8}ndelag".to_string()), (634_305, 103_951));
    assert_eq!(place.place(), Some(&"Tr\u{f8}ndelag".to_string()));
    assert_eq!(place.lat_long(), (634_305, 103_951));
    let nowhere = Location::new(None, (0, 0));
    assert_eq!(nowhere.place(), None);
    assert_eq!(nowhere.lat_long(), (0, 0));
    assert_eq!(place.clone(), place);
    assert_ne!(place, nowhere);
    assert_ne!(nowhere, Location::new(Some(String::new()), (0, 0)));
    assert_ne!(nowhere, Location::new(None, (0, 1)));
}
