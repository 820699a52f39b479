//! Builders: one constructor of objects for each form that the catalog makes, and
//! the text in which an object is shown.

use crate::object::{
    matches_query, same_identity, tag_text, with_tag, Form, FormView, Object, ObjectView, Tag,
    TagSet, TagView,
};
use crate::text::{
    contains_text, decimal, decimal_string, decode_lossy, lemma_text_of_encoding, readable,
    readablificate, text_of,
};
use vstd::prelude::*;
use vstd::string::{StrSliceExecFns, StringExecFns};
use vstd::utf8::*;

verus! {

/// One field of image metadata, as plain values: the numeric identifier of its
/// tag, the tag's description where the metadata standard gives one, and the
/// field's value formatted for display.
#[derive(Debug)]
pub struct ExifField {
    pub number: u16,
    pub description: Option<String>,
    pub value: String,
}

/// The mathematical value of an [`ExifField`].
pub struct ExifFieldView {
    pub number: int,
    pub description: Option<Seq<char>>,
    pub value: Seq<char>,
}

impl View for ExifField {
    type V = ExifFieldView;

    open spec fn view(&self) -> ExifFieldView {
        ExifFieldView {
            number: self.number as int,
            description: match self.description {
                Some(text) => Some(text@),
                None => None,
            },
            value: self.value@,
        }
    }
}

/// The values of a sequence of metadata fields.
pub open spec fn field_views(fields: Seq<ExifField>) -> Seq<ExifFieldView> {
    Seq::new(fields.len(), |i: int| fields[i]@)
}

/// The tag that a metadata field becomes. It is named by the field's description,
/// or by its identifier in decimal where it has none.
pub open spec fn exif_tag(field: ExifFieldView) -> TagView {
    TagView::Exif {
        name: match field.description {
            Some(text) => text,
            None => decimal(field.number),
        },
        value: field.value,
    }
}

/// The tags of a sequence of metadata fields: one for each field, in order, a tag
/// that came before not being added again.
pub open spec fn exif_tags(fields: Seq<ExifFieldView>) -> Seq<TagView>
    decreases fields.len(),
{
    if fields.len() == 0 {
        seq![]
    } else {
        with_tag(exif_tags(fields.drop_last()), exif_tag(fields.last()))
    }
}

/// The tags of a photo, from what parsing its metadata gave: those of the fields,
/// or none where the metadata could not be parsed.
pub open spec fn photo_tags(parsed: Option<Seq<ExifFieldView>>) -> Seq<TagView> {
    match parsed {
        Some(fields) => exif_tags(fields),
        None => seq![],
    }
}

/// The object that a builder makes: the payload as it is, the form, and the tags.
pub open spec fn built(data: Seq<u8>, form: FormView, tags: Seq<TagView>) -> ObjectView {
    ObjectView { data, tags, form }
}

/// The lines of a sequence of tags, one tag to a line, with a line feed between
/// two lines and none at the end.
pub open spec fn joined_tags(tags: Seq<TagView>) -> Seq<char>
    decreases tags.len(),
{
    if tags.len() == 0 {
        seq![]
    } else if tags.len() == 1 {
        tag_text(tags[0])
    } else {
        joined_tags(tags.drop_last()) + seq!['\n'] + tag_text(tags.last())
    }
}

/// The text in which an object is shown. The sentinel is a fixed line; plain text
/// is its own decoding, lossy where it is not well-formed; a photo is a fixed
/// heading in place of its payload, and its tags; an object of any other form is
/// its payload made readable, and its tags.
pub open spec fn shown(object: ObjectView) -> Seq<char> {
    match object.form {
        FormView::Empty => "--- empty object ---"@,
        FormView::Photo => "Contents --- \n(image data)\nTags --- \n"@ + joined_tags(object.tags),
        FormView::PlainText => text_of(object.data),
        _ => "Contents --- \n"@ + readable(object.data) + "\nTags --- \n"@ + joined_tags(
            object.tags,
        ),
    }
}

/// Two objects that builders made are the same object exactly when they were made
/// of the same bytes, whatever their forms and tags.
pub proof fn lemma_identity_is_payload(
    a: Seq<u8>,
    form_a: FormView,
    tags_a: Seq<TagView>,
    b: Seq<u8>,
    form_b: FormView,
    tags_b: Seq<TagView>,
)
    ensures
        same_identity(built(a, form_a, tags_a), built(b, form_b, tags_b)) <==> a == b,
{
}

/// A plain-text object made of a text matches a query exactly when the text
/// contains the query.
pub proof fn lemma_plain_text_matches(text: Seq<char>, query: Seq<char>)
    ensures
        matches_query(built(encode_utf8(text), FormView::PlainText, seq![]), query)
            == contains_text(text, query),
{
    lemma_text_of_encoding(text);
}

/// The sentinel object matches no query, and a photo without tags matches the
/// empty query and no other.
pub proof fn lemma_matches_without_tags(data: Seq<u8>, query: Seq<char>)
    ensures
        !matches_query(built(seq![], FormView::Empty, seq![]), query),
        matches_query(built(data, FormView::Photo, seq![]), query) <==> query.len() == 0,
{
}

/// The tags of metadata fields hold no tag twice.
pub proof fn lemma_exif_tags_distinct(fields: Seq<ExifFieldView>)
    ensures
        exif_tags(fields).no_duplicates(),
    decreases fields.len(),
{
    if fields.len() > 0 {
        lemma_exif_tags_distinct(fields.drop_last());
    }
}

/// The error with which the metadata parser fails, carried through as an opaque
/// value.
#[verifier::external_type_specification]
#[verifier::external_body]
pub struct ExExifError(exif::Error);

/// What `exif::parse_exif` finds in a byte sequence: the fields in the order in
/// which the parser lists them, or nothing where it fails.
pub uninterp spec fn exif_fields(data: Seq<u8>) -> Option<Seq<ExifFieldView>>;

/// `exif::parse_exif`, which reads TIFF-structured metadata. Each field that it
/// returns is handed on as plain values, taken from `Tag::number`,
/// `Tag::description` and `Field::display_value`. The parser checks every offset
/// against the length of the input before it reads, and refuses input that it
/// cannot follow with an error.
#[verifier::external_body]
pub(crate) fn parse_exif(data: &[u8]) -> (r: Result<Vec<ExifField>, exif::Error>)
    ensures
        match r {
            Ok(fields) => exif_fields(data@) == Some(field_views(fields@)),
            Err(_) => exif_fields(data@) is None,
        },
{
    match exif::parse_exif(data) {
        Ok((fields, _)) => Ok(
            fields.iter().map(
                |field|
                    ExifField {
                        number: field.tag.number(),
                        description: field.tag.description().map(|text| text.to_string()),
                        value: field.display_value().to_string(),
                    },
            ).collect(),
        ),
        Err(e) => Err(e),
    }
}

/// The sentinel object: no payload, no tags, the empty form.
pub fn empty() -> (object: Object)
    ensures
        object@ == built(seq![], FormView::Empty, seq![]),
{
    Object { data: Vec::new(), tags: TagSet::new(), form: Form::Empty }
}

/// A plain-text object whose payload is the UTF-8 encoding of `data`.
pub fn plain_text(data: String) -> (object: Object)
    ensures
        object@ == built(encode_utf8(data@), FormView::PlainText, seq![]),
{
    Object { data: data.as_str().as_bytes_vec(), tags: TagSet::new(), form: Form::PlainText }
}

/// A binary object with `data` as its payload.
pub fn binary(data: Vec<u8>) -> (object: Object)
    ensures
        object@ == built(data@, FormView::Binary, seq![]),
{
    Object { data, tags: TagSet::new(), form: Form::Binary }
}

/// The tag that a metadata field becomes.
pub fn tag_of_field(field: &ExifField) -> (tag: Tag)
    ensures
        tag@ == exif_tag(field@),
{
    let name = match &field.description {
        Some(text) => text.clone(),
        None => decimal_string(field.number as i64),
    };
    Tag::Exif { name, value: field.value.clone() }
}

/// A photo object with `data` as its payload and one tag for each metadata field
/// in `parsed`. Where `parsed` is `None`, the metadata could not be read, and the
/// photo has no tags.
pub fn photo_with_fields(data: Vec<u8>, parsed: Option<Vec<ExifField>>) -> (object: Object)
    ensures
        object@ == built(
            data@,
            FormView::Photo,
            photo_tags(
                match parsed {
                    Some(fields) => Some(field_views(fields@)),
                    None => None,
                },
            ),
        ),
{
    let mut tags = TagSet::new();
    match parsed {
        Some(fields) => {
            let mut i: usize = 0;
            while i < fields.len()
                invariant
                    i <= fields.len(),
                    tags@ == exif_tags(field_views(fields@).take(i as int)),
                decreases fields.len() - i,
            {
                tags.insert(tag_of_field(&fields[i]));
                proof {
                    let upto = field_views(fields@).take(i + 1);
                    assert(upto.drop_last() =~= field_views(fields@).take(i as int));
                    assert(upto.last() == fields@[i as int]@);
                }
                i = i + 1;
            }
            proof {
                assert(field_views(fields@).take(fields.len() as int) =~= field_views(fields@));
            }
        },
        None => {},
    }
    Object { data, tags, form: Form::Photo }
}

/// A photo object with `data` as its payload. Its tags are the metadata fields
/// that the payload holds; a payload whose metadata is malformed or missing gives
/// a photo without tags, never an error.
pub fn photo(data: Vec<u8>) -> (object: Object)
    ensures
        object@ == built(data@, FormView::Photo, photo_tags(exif_fields(data@))),
{
    let parsed = match parse_exif(data.as_slice()) {
        Ok(fields) => Some(fields),
        Err(_) => None,
    };
    photo_with_fields(data, parsed)
}

/// Appends the lines of `tags` to `out`.
fn push_joined_tags(out: &mut String, tags: &TagSet)
    ensures
        final(out)@ == old(out)@ + joined_tags(tags@),
{
    let n = tags.len();
    let mut i: usize = 0;
    proof {
        assert(tags@.take(0) =~= Seq::<TagView>::empty());
        assert(out@ =~= old(out)@ + joined_tags(tags@.take(0)));
    }
    while i < n
        invariant
            i <= n,
            n == tags@.len(),
            out@ == old(out)@ + joined_tags(tags@.take(i as int)),
        decreases n - i,
    {
        if i > 0 {
            out.push('\n');
        }
        let line = tags.get(i).to_string();
        out.append(line.as_str());
        proof {
            let upto = tags@.take(i + 1);
            assert(upto.drop_last() =~= tags@.take(i as int));
            assert(upto.last() == tags@[i as int]);
            assert(out@ =~= old(out)@ + joined_tags(upto));
        }
        i = i + 1;
    }
    proof {
        assert(tags@.take(n as int) =~= tags@);
    }
}

impl Object {
    /// The text in which the object is shown to a reader.
    pub fn display_text(&self) -> (text: String)
        ensures
            text@ == shown(self@),
    {
        match &self.form {
            Form::Empty => String::from_str("--- empty object ---"),
            Form::Photo => {
                let mut text = String::from_str("Contents --- \n(image data)\nTags --- \n");
                push_joined_tags(&mut text, &self.tags);
                text
            },
            Form::PlainText => decode_lossy(self.data.as_slice()),
            _ => {
                let mut text = String::from_str("Contents --- \n");
                let contents = readablificate(&self.data);
                text.append(contents.as_str());
                text.append("\nTags --- \n");
                push_joined_tags(&mut text, &self.tags);
                text
            },
        }
    }
}

} // verus!
