//! The catalog's data model: an object is a payload of raw bytes, the form that the
//! classifier gave it, and a set of descriptive tags.

use crate::text::{
    contains_text, decimal, decimal_string, decode_lossy, hex_encode, hex_text, str_contains,
    text_of,
};
use vstd::prelude::*;
use vstd::std_specs::cmp::PartialEqSpecImpl;
use vstd::string::StringExecFns;

pub mod builders;

verus! {

/// What kind of content a payload holds.
#[derive(Debug, Eq, Hash)]
pub enum Form {
    Empty,
    PlainText,
    TypesetText,
    Binary,
    App,
    Photo,
    Sound,
    Video,
    Model3D,
    Archive,
    OtherUnknown(String),
}

/// The mathematical value of a [`Form`].
pub enum FormView {
    Empty,
    PlainText,
    TypesetText,
    Binary,
    App,
    Photo,
    Sound,
    Video,
    Model3D,
    Archive,
    OtherUnknown(Seq<char>),
}

impl View for Form {
    type V = FormView;

    open spec fn view(&self) -> FormView {
        match self {
            Form::Empty => FormView::Empty,
            Form::PlainText => FormView::PlainText,
            Form::TypesetText => FormView::TypesetText,
            Form::Binary => FormView::Binary,
            Form::App => FormView::App,
            Form::Photo => FormView::Photo,
            Form::Sound => FormView::Sound,
            Form::Video => FormView::Video,
            Form::Model3D => FormView::Model3D,
            Form::Archive => FormView::Archive,
            Form::OtherUnknown(label) => FormView::OtherUnknown(label@),
        }
    }
}

impl Clone for Form {
    fn clone(&self) -> (r: Self)
        ensures
            r@ == self@,
    {
        match self {
            Form::Empty => Form::Empty,
            Form::PlainText => Form::PlainText,
            Form::TypesetText => Form::TypesetText,
            Form::Binary => Form::Binary,
            Form::App => Form::App,
            Form::Photo => Form::Photo,
            Form::Sound => Form::Sound,
            Form::Video => Form::Video,
            Form::Model3D => Form::Model3D,
            Form::Archive => Form::Archive,
            Form::OtherUnknown(label) => Form::OtherUnknown(label.clone()),
        }
    }
}

impl PartialEq for Form {
    fn eq(&self, other: &Self) -> (r: bool) {
        match (self, other) {
            (Form::Empty, Form::Empty) => true,
            (Form::PlainText, Form::PlainText) => true,
            (Form::TypesetText, Form::TypesetText) => true,
            (Form::Binary, Form::Binary) => true,
            (Form::App, Form::App) => true,
            (Form::Photo, Form::Photo) => true,
            (Form::Sound, Form::Sound) => true,
            (Form::Video, Form::Video) => true,
            (Form::Model3D, Form::Model3D) => true,
            (Form::Archive, Form::Archive) => true,
            (Form::OtherUnknown(a), Form::OtherUnknown(b)) => *a == *b,
            _ => false,
        }
    }
}

impl PartialEqSpecImpl for Form {
    open spec fn obeys_eq_spec() -> bool {
        true
    }

    open spec fn eq_spec(&self, other: &Self) -> bool {
        self@ == other@
    }
}

/// What a date tag is about.
#[derive(Debug, Eq, Hash)]
pub enum DateConcerns {
    /// When the object was created.
    Created,
    /// When the object was added to the catalog.
    Added,
    /// When the object was last edited.
    Edited,
    OtherUnknown(String),
}

/// The mathematical value of a [`DateConcerns`].
pub enum DateConcernsView {
    Created,
    Added,
    Edited,
    OtherUnknown(Seq<char>),
}

impl View for DateConcerns {
    type V = DateConcernsView;

    open spec fn view(&self) -> DateConcernsView {
        match self {
            DateConcerns::Created => DateConcernsView::Created,
            DateConcerns::Added => DateConcernsView::Added,
            DateConcerns::Edited => DateConcernsView::Edited,
            DateConcerns::OtherUnknown(label) => DateConcernsView::OtherUnknown(label@),
        }
    }
}

/// The text that stands for a [`DateConcerns`]: its name, or the label it carries.
pub open spec fn date_concerns_text(concerns: DateConcernsView) -> Seq<char> {
    match concerns {
        DateConcernsView::Created => "Created"@,
        DateConcernsView::Added => "Added"@,
        DateConcernsView::Edited => "Edited"@,
        DateConcernsView::OtherUnknown(label) => label,
    }
}

impl DateConcerns {
    /// The text that stands for this value.
    pub fn to_string(&self) -> (s: String)
        ensures
            s@ == date_concerns_text(self@),
    {
        match self {
            DateConcerns::Created => String::from_str("Created"),
            DateConcerns::Added => String::from_str("Added"),
            DateConcerns::Edited => String::from_str("Edited"),
            DateConcerns::OtherUnknown(label) => label.clone(),
        }
    }
}

impl Clone for DateConcerns {
    fn clone(&self) -> (r: Self)
        ensures
            r@ == self@,
    {
        match self {
            DateConcerns::Created => DateConcerns::Created,
            DateConcerns::Added => DateConcerns::Added,
            DateConcerns::Edited => DateConcerns::Edited,
            DateConcerns::OtherUnknown(label) => DateConcerns::OtherUnknown(label.clone()),
        }
    }
}

impl PartialEq for DateConcerns {
    fn eq(&self, other: &Self) -> (r: bool) {
        match (self, other) {
            (DateConcerns::Created, DateConcerns::Created) => true,
            (DateConcerns::Added, DateConcerns::Added) => true,
            (DateConcerns::Edited, DateConcerns::Edited) => true,
            (DateConcerns::OtherUnknown(a), DateConcerns::OtherUnknown(b)) => *a == *b,
            _ => false,
        }
    }
}

impl PartialEqSpecImpl for DateConcerns {
    open spec fn obeys_eq_spec() -> bool {
        true
    }

    open spec fn eq_spec(&self, other: &Self) -> bool {
        self@ == other@
    }
}

/// A date and time of which every component may be missing.
#[derive(Debug, Eq, Hash)]
pub struct DateTime {
    year: Option<i32>,
    month: Option<u8>,
    day: Option<u8>,
    hour: Option<u8>,
    minute: Option<u8>,
    second: Option<u8>,
}

/// The mathematical value of a [`DateTime`].
pub struct DateTimeView {
    pub year: Option<int>,
    pub month: Option<int>,
    pub day: Option<int>,
    pub hour: Option<int>,
    pub minute: Option<int>,
    pub second: Option<int>,
}

/// The integer that an optional machine integer holds, if any.
pub open spec fn some_int<T: Integer>(v: Option<T>) -> Option<int> {
    match v {
        Some(i) => Some(i as int),
        None => None,
    }
}

impl View for DateTime {
    type V = DateTimeView;

    closed spec fn view(&self) -> DateTimeView {
        DateTimeView {
            year: some_int(self.year),
            month: some_int(self.month),
            day: some_int(self.day),
            hour: some_int(self.hour),
            minute: some_int(self.minute),
            second: some_int(self.second),
        }
    }
}

/// One component of a date as text: its decimal digits, or `width` hash signs
/// where it is missing.
pub open spec fn date_component_text(component: Option<int>, width: nat) -> Seq<char> {
    match component {
        Some(i) => decimal(i),
        None => Seq::new(width, |k: int| '#'),
    }
}

/// A date and time in the shape `YYYY-MM-DD HH:MM:SS`. A component that is present
/// is written in decimal without padding; a missing year is `####`, any other
/// missing component `##`.
pub open spec fn date_time_text(d: DateTimeView) -> Seq<char> {
    date_component_text(d.year, 4) + seq!['-'] + date_component_text(d.month, 2) + seq!['-']
        + date_component_text(d.day, 2) + seq![' '] + date_component_text(d.hour, 2) + seq![':']
        + date_component_text(d.minute, 2) + seq![':'] + date_component_text(d.second, 2)
}

/// Appends one component of a date to `out`.
fn push_date_component(out: &mut String, component: Option<i64>, width: usize)
    ensures
        final(out)@ == old(out)@ + date_component_text(some_int(component), width as nat),
{
    match component {
        Some(i) => {
            let digits = decimal_string(i);
            out.append(digits.as_str());
        },
        None => {
            let mut k: usize = 0;
            while k < width
                invariant
                    k <= width,
                    out@ == old(out)@ + Seq::new(k as nat, |j: int| '#'),
                decreases width - k,
            {
                out.push('#');
                k = k + 1;
                assert(out@ =~= old(out)@ + Seq::new(k as nat, |j: int| '#'));
            }
        },
    }
}

/// A machine integer widened to 64 bits.
fn widen_u8(v: Option<u8>) -> (r: Option<i64>)
    ensures
        some_int(r) == some_int(v),
{
    match v {
        Some(i) => Some(i as i64),
        None => None,
    }
}

impl DateTime {
    /// A date and time with the given components.
    pub fn new(
        year: Option<i32>,
        month: Option<u8>,
        day: Option<u8>,
        hour: Option<u8>,
        minute: Option<u8>,
        second: Option<u8>,
    ) -> (r: Self)
        ensures
            r@ == (DateTimeView {
                year: some_int(year),
                month: some_int(month),
                day: some_int(day),
                hour: some_int(hour),
                minute: some_int(minute),
                second: some_int(second),
            }),
    {
        DateTime { year, month, day, hour, minute, second }
    }

    /// The year, if the date has one.
    pub fn year(&self) -> (r: Option<i32>)
        ensures
            some_int(r) == self@.year,
    {
        self.year
    }

    /// The month, if the date has one.
    pub fn month(&self) -> (r: Option<u8>)
        ensures
            some_int(r) == self@.month,
    {
        self.month
    }

    /// The day, if the date has one.
    pub fn day(&self) -> (r: Option<u8>)
        ensures
            some_int(r) == self@.day,
    {
        self.day
    }

    /// The hour, if the date has one.
    pub fn hour(&self) -> (r: Option<u8>)
        ensures
            some_int(r) == self@.hour,
    {
        self.hour
    }

    /// The minute, if the date has one.
    pub fn minute(&self) -> (r: Option<u8>)
        ensures
            some_int(r) == self@.minute,
    {
        self.minute
    }

    /// The second, if the date has one.
    pub fn second(&self) -> (r: Option<u8>)
        ensures
            some_int(r) == self@.second,
    {
        self.second
    }

    /// The date and time as text.
    pub fn to_string(&self) -> (s: String)
        ensures
            s@ == date_time_text(self@),
    {
        let mut s = String::new();
        let year = match self.year {
            Some(y) => Some(y as i64),
            None => None,
        };
        push_date_component(&mut s, year, 4);
        s.push('-');
        push_date_component(&mut s, widen_u8(self.month), 2);
        s.push('-');
        push_date_component(&mut s, widen_u8(self.day), 2);
        s.push(' ');
        push_date_component(&mut s, widen_u8(self.hour), 2);
        s.push(':');
        push_date_component(&mut s, widen_u8(self.minute), 2);
        s.push(':');
        push_date_component(&mut s, widen_u8(self.second), 2);
        assert(s@ =~= date_time_text(self@));
        s
    }
}

impl Clone for DateTime {
    fn clone(&self) -> (r: Self)
        ensures
            r@ == self@,
    {
        DateTime {
            year: self.year,
            month: self.month,
            day: self.day,
            hour: self.hour,
            minute: self.minute,
            second: self.second,
        }
    }
}

impl PartialEq for DateTime {
    fn eq(&self, other: &Self) -> (r: bool) {
        self.year == other.year && self.month == other.month && self.day == other.day
            && self.hour == other.hour && self.minute == other.minute && self.second
            == other.second
    }
}

impl PartialEqSpecImpl for DateTime {
    open spec fn obeys_eq_spec() -> bool {
        true
    }

    open spec fn eq_spec(&self, other: &Self) -> bool {
        self@ == other@
    }
}

/// A place: an optional name and a latitude and longitude, each in units of one
/// ten-thousandth.
#[derive(Debug, Eq, Hash)]
pub struct Location {
    place: Option<String>,
    lat_long: (u64, u64),
}

/// The mathematical value of a [`Location`].
pub struct LocationView {
    pub place: Option<Seq<char>>,
    pub lat_long: (u64, u64),
}

impl View for Location {
    type V = LocationView;

    closed spec fn view(&self) -> LocationView {
        LocationView {
            place: match self.place {
                Some(name) => Some(name@),
                None => None,
            },
            lat_long: self.lat_long,
        }
    }
}

impl Location {
    /// A location with the given name and coordinates.
    pub fn new(place: Option<String>, lat_long: (u64, u64)) -> (r: Self)
        ensures
            r@.lat_long == lat_long,
            match place {
                Some(name) => r@.place == Some(name@),
                None => r@.place is None,
            },
    {
        Location { place, lat_long }
    }

    /// The name of the place, if it has one.
    pub fn place(&self) -> (r: Option<&String>)
        ensures
            match r {
                Some(name) => self@.place == Some(name@),
                None => self@.place is None,
            },
    {
        match &self.place {
            Some(name) => Some(name),
            None => None,
        }
    }

    /// The latitude and longitude, in ten-thousandths.
    pub fn lat_long(&self) -> (r: (u64, u64))
        ensures
            r == self@.lat_long,
    {
        self.lat_long
    }
}

impl Clone for Location {
    fn clone(&self) -> (r: Self)
        ensures
            r@ == self@,
    {
        Location {
            place: match &self.place {
                Some(name) => Some(name.clone()),
                None => None,
            },
            lat_long: self.lat_long,
        }
    }
}

impl PartialEq for Location {
    fn eq(&self, other: &Self) -> (r: bool) {
        let same_place = match (&self.place, &other.place) {
            (Some(a), Some(b)) => *a == *b,
            (None, None) => true,
            _ => false,
        };
        same_place && self.lat_long.0 == other.lat_long.0 && self.lat_long.1 == other.lat_long.1
    }
}

impl PartialEqSpecImpl for Location {
    open spec fn obeys_eq_spec() -> bool {
        true
    }

    open spec fn eq_spec(&self, other: &Self) -> bool {
        self@ == other@
    }
}

/// A descriptive fact about an object.
#[derive(Debug, Eq, Hash)]
#[allow(inconsistent_fields)]
pub enum Tag {
    Category(String),
    /// One field of image metadata.
    Exif { name: String, value: String },
    Title(String),
    Author(String),
    Date { value: DateTime, concerns: DateConcerns },
    OtherUnknown { name: String, value: String },
}

/// The mathematical value of a [`Tag`].
#[allow(inconsistent_fields)]
pub enum TagView {
    Category(Seq<char>),
    Exif { name: Seq<char>, value: Seq<char> },
    Title(Seq<char>),
    Author(Seq<char>),
    Date { value: DateTimeView, concerns: DateConcernsView },
    OtherUnknown { name: Seq<char>, value: Seq<char> },
}

impl View for Tag {
    type V = TagView;

    open spec fn view(&self) -> TagView {
        match self {
            Tag::Category(text) => TagView::Category(text@),
            Tag::Exif { name, value } => TagView::Exif { name: name@, value: value@ },
            Tag::Title(text) => TagView::Title(text@),
            Tag::Author(text) => TagView::Author(text@),
            Tag::Date { value, concerns } => TagView::Date { value: value@, concerns: concerns@ },
            Tag::OtherUnknown { name, value } => TagView::OtherUnknown {
                name: name@,
                value: value@,
            },
        }
    }
}

/// A tag as one line of text: what kind of fact it is, a bar, and the fact.
pub open spec fn tag_text(tag: TagView) -> Seq<char> {
    match tag {
        TagView::Category(text) => "Category | "@ + text,
        TagView::Exif { name, value } => "EXIF "@ + name + " | "@ + value,
        TagView::Title(text) => "Title | "@ + text,
        TagView::Author(text) => "Author | "@ + text,
        TagView::Date { value, concerns } => "Date "@ + date_concerns_text(concerns) + " | "@
            + date_time_text(value),
        TagView::OtherUnknown { name, value } => "Other "@ + name + " | "@ + value,
    }
}

impl Tag {
    /// The tag as one line of text.
    pub fn to_string(&self) -> (s: String)
        ensures
            s@ == tag_text(self@),
    {
        match self {
            Tag::Category(text) => {
                let mut s = String::from_str("Category | ");
                s.append(text.as_str());
                s
            },
            Tag::Exif { name, value } => {
                let mut s = String::from_str("EXIF ");
                s.append(name.as_str());
                s.append(" | ");
                s.append(value.as_str());
                s
            },
            Tag::Title(text) => {
                let mut s = String::from_str("Title | ");
                s.append(text.as_str());
                s
            },
            Tag::Author(text) => {
                let mut s = String::from_str("Author | ");
                s.append(text.as_str());
                s
            },
            Tag::Date { value, concerns } => {
                let mut s = String::from_str("Date ");
                let about = concerns.to_string();
                s.append(about.as_str());
                s.append(" | ");
                let when = value.to_string();
                s.append(when.as_str());
                s
            },
            Tag::OtherUnknown { name, value } => {
                let mut s = String::from_str("Other ");
                s.append(name.as_str());
                s.append(" | ");
                s.append(value.as_str());
                s
            },
        }
    }
}

impl Clone for Tag {
    fn clone(&self) -> (r: Self)
        ensures
            r@ == self@,
    {
        match self {
            Tag::Category(text) => Tag::Category(text.clone()),
            Tag::Exif { name, value } => Tag::Exif { name: name.clone(), value: value.clone() },
            Tag::Title(text) => Tag::Title(text.clone()),
            Tag::Author(text) => Tag::Author(text.clone()),
            Tag::Date { value, concerns } => Tag::Date {
                value: value.clone(),
                concerns: concerns.clone(),
            },
            Tag::OtherUnknown { name, value } => Tag::OtherUnknown {
                name: name.clone(),
                value: value.clone(),
            },
        }
    }
}

impl PartialEq for Tag {
    fn eq(&self, other: &Self) -> (r: bool) {
        match (self, other) {
            (Tag::Category(a), Tag::Category(b)) => *a == *b,
            (Tag::Exif { name: a, value: x }, Tag::Exif { name: b, value: y }) => *a == *b && *x
                == *y,
            (Tag::Title(a), Tag::Title(b)) => *a == *b,
            (Tag::Author(a), Tag::Author(b)) => *a == *b,
            (Tag::Date { value: a, concerns: x }, Tag::Date { value: b, concerns: y }) => *a == *b
                && *x == *y,
            (
                Tag::OtherUnknown { name: a, value: x },
                Tag::OtherUnknown { name: b, value: y },
            ) => *a == *b && *x == *y,
            _ => false,
        }
    }
}

impl PartialEqSpecImpl for Tag {
    open spec fn obeys_eq_spec() -> bool {
        true
    }

    open spec fn eq_spec(&self, other: &Self) -> bool {
        self@ == other@
    }
}

/// `tags` with `tag` added at the end, unless it is among them already.
pub open spec fn with_tag(tags: Seq<TagView>, tag: TagView) -> Seq<TagView> {
    if tags.contains(tag) {
        tags
    } else {
        tags.push(tag)
    }
}

/// All of `tags` added one after the other to an empty set.
pub open spec fn tagged(tags: Seq<TagView>) -> Seq<TagView>
    decreases tags.len(),
{
    if tags.len() == 0 {
        seq![]
    } else {
        with_tag(tagged(tags.drop_last()), tags.last())
    }
}

/// Adding a tag a second time changes nothing.
pub proof fn lemma_with_tag_twice(tags: Seq<TagView>, tag: TagView)
    ensures
        with_tag(with_tag(tags, tag), tag) == with_tag(tags, tag),
{
    if !tags.contains(tag) {
        assert(tags.push(tag)[tags.len() as int] == tag);
    }
}

/// A set that is built again from its own tags, in their order, is the same set.
pub proof fn lemma_tagged_restores(tags: Seq<TagView>)
    requires
        tags.no_duplicates(),
    ensures
        tagged(tags) == tags,
    decreases tags.len(),
{
    if tags.len() > 0 {
        let rest = tags.drop_last();
        lemma_tagged_restores(rest);
        if rest.contains(tags.last()) {
            let i = choose|i: int| 0 <= i < rest.len() && rest[i] == tags.last();
            assert(tags[i] == tags[tags.len() - 1]);
        }
        assert(rest.push(tags.last()) =~= tags);
    } else {
        assert(tags =~= seq![]);
    }
}

/// The values of a sequence of tags.
pub open spec fn tag_views(tags: Seq<Tag>) -> Seq<TagView> {
    Seq::new(tags.len(), |i: int| tags[i]@)
}

/// A set of tags. No tag occurs twice, and the tags are kept, and walked, in the
/// order in which they were first inserted.
#[derive(Debug)]
pub struct TagSet {
    items: Vec<Tag>,
}

impl View for TagSet {
    type V = Seq<TagView>;

    closed spec fn view(&self) -> Seq<TagView> {
        tag_views(self.items@)
    }
}

impl TagSet {
    #[verifier::type_invariant]
    spec fn distinct(self) -> bool {
        self@.no_duplicates()
    }

    /// The empty set.
    pub fn new() -> (r: Self)
        ensures
            r@ == Seq::<TagView>::empty(),
    {
        let r = TagSet { items: Vec::new() };
        assert(r@ =~= Seq::<TagView>::empty());
        r
    }

    /// The set of the tags of `tags`, each added in turn: a tag that came before
    /// is not added again.
    pub fn from_vec(tags: Vec<Tag>) -> (r: Self)
        ensures
            r@ == tagged(tag_views(tags@)),
    {
        let mut r = TagSet::new();
        let ghost all = tag_views(tags@);
        proof {
            assert(all.take(0) =~= Seq::<TagView>::empty());
        }
        for tag in it: tags.into_iter()
            invariant
                tag_views(it.seq()) == all,
                r@ == tagged(all.take(it.index())),
        {
            proof {
                let k = it.index();
                assert(all.take(k + 1).drop_last() =~= all.take(k));
                assert(all.take(k + 1).last() == tag@);
            }
            r.insert(tag);
        }
        proof {
            assert(all.take(all.len() as int) =~= all);
        }
        r
    }

    /// How many tags the set holds. No tag is counted twice.
    pub fn len(&self) -> (n: usize)
        ensures
            n == self@.len(),
            self@.no_duplicates(),
    {
        proof {
            use_type_invariant(self);
        }
        self.items.len()
    }

    /// Whether the set holds no tag.
    pub fn is_empty(&self) -> (r: bool)
        ensures
            r == (self@.len() == 0),
    {
        self.items.len() == 0
    }

    /// The tag at position `index` in insertion order.
    pub fn get(&self, index: usize) -> (tag: &Tag)
        requires
            index < self@.len(),
        ensures
            tag@ == self@[index as int],
    {
        &self.items[index]
    }

    /// Whether `tag` is in the set.
    pub fn contains(&self, tag: &Tag) -> (r: bool)
        ensures
            r == self@.contains(tag@),
    {
        let mut i: usize = 0;
        while i < self.items.len()
            invariant
                i <= self.items.len(),
                forall|j: int| 0 <= j < i ==> self@[j] != tag@,
            decreases self.items.len() - i,
        {
            if self.items[i] == *tag {
                assert(self@[i as int] == tag@);
                return true;
            }
            i = i + 1;
        }
        false
    }

    /// Adds `tag` unless an equal tag is in the set already, and says whether it
    /// was added. A tag that is in the set stays where it is.
    pub fn insert(&mut self, tag: Tag) -> (added: bool)
        ensures
            final(self)@ == with_tag(old(self)@, tag@),
            added == !old(self)@.contains(tag@),
            final(self)@.no_duplicates(),
    {
        proof {
            use_type_invariant(&*self);
        }
        if self.contains(&tag) {
            false
        } else {
            let ghost before = self@;
            let mut items = Vec::new();
            std::mem::swap(&mut items, &mut self.items);
            items.push(tag);
            proof {
                assert(tag_views(items@) =~= before.push(tag@));
            }
            self.items = items;
            true
        }
    }
}

impl Clone for TagSet {
    fn clone(&self) -> (r: Self)
        ensures
            r@ == self@,
    {
        proof {
            use_type_invariant(self);
        }
        let mut items: Vec<Tag> = Vec::new();
        let mut i: usize = 0;
        while i < self.items.len()
            invariant
                i <= self.items.len(),
                items@.len() == i,
                forall|j: int| 0 <= j < i ==> (#[trigger] items@[j])@ == self.items@[j]@,
            decreases self.items.len() - i,
        {
            let tag = self.items[i].clone();
            items.push(tag);
            i = i + 1;
        }
        assert(tag_views(items@) =~= self@);
        TagSet { items }
    }
}

/// An object of the catalog: a payload, the tags that describe it, and its form.
/// Two objects are the same object exactly when their payloads are equal.
#[derive(Debug)]
pub struct Object {
    pub data: Vec<u8>,
    pub tags: TagSet,
    pub form: Form,
}

/// The mathematical value of an [`Object`]. The tags stand in insertion order.
pub struct ObjectView {
    pub data: Seq<u8>,
    pub tags: Seq<TagView>,
    pub form: FormView,
}

impl View for Object {
    type V = ObjectView;

    open spec fn view(&self) -> ObjectView {
        ObjectView { data: self.data@, tags: self.tags@, form: self.form@ }
    }
}

/// Two objects have the same identity: their payloads are equal byte for byte.
/// Neither the tags nor the form take part.
pub open spec fn same_identity(a: ObjectView, b: ObjectView) -> bool {
    a.data == b.data
}

/// `tags[i]` is a metadata field whose value contains `query`, and every tag
/// before it is a metadata field too.
pub open spec fn photo_hit(tags: Seq<TagView>, query: Seq<char>, i: int) -> bool {
    &&& 0 <= i < tags.len()
    &&& tags[i] matches TagView::Exif { value, .. } && contains_text(value, query)
    &&& forall|j: int| 0 <= j < i ==> #[trigger] tags[j] is Exif
}

/// Whether a photo with these tags matches `query`. The tags are walked in order:
/// the first metadata field whose value contains the query is a match, and the
/// first tag that is no metadata field ends the walk without one. A photo without
/// tags matches the empty query only.
pub open spec fn photo_matches(tags: Seq<TagView>, query: Seq<char>) -> bool {
    if tags.len() == 0 {
        query.len() == 0
    } else {
        exists|i: int| photo_hit(tags, query, i)
    }
}

/// Whether an object matches a free-text query. Binary payloads are searched in
/// their lowercase hexadecimal notation, plain text in its decoding, which is
/// lossy where the payload is not well-formed, photos in their metadata; objects
/// of any other form never match.
pub open spec fn matches_query(object: ObjectView, query: Seq<char>) -> bool {
    match object.form {
        FormView::Binary => contains_text(hex_text(object.data), query),
        FormView::Photo => photo_matches(object.tags, query),
        FormView::PlainText => contains_text(text_of(object.data), query),
        _ => false,
    }
}

impl Object {
    /// The key by which objects are told apart: the payload.
    pub fn identity(&self) -> (key: &Vec<u8>)
        ensures
            key@ == self@.data,
    {
        &self.data
    }

    /// Whether a photo's tags match `query`.
    fn search_tags(&self, query: &str) -> (r: bool)
        ensures
            r == photo_matches(self@.tags, query@),
    {
        let n = self.tags.len();
        let mut i: usize = 0;
        while i < n
            invariant
                i <= n,
                n == self@.tags.len(),
                forall|j: int| 0 <= j < i ==> #[trigger] self@.tags[j] is Exif,
                forall|j: int| 0 <= j < i ==> !photo_hit(self@.tags, query@, j),
            decreases n - i,
        {
            match self.tags.get(i) {
                Tag::Exif { value, .. } => {
                    if str_contains(value.as_str(), query) {
                        assert(photo_hit(self@.tags, query@, i as int));
                        return true;
                    }
                },
                _ => {
                    assert forall|k: int| !photo_hit(self@.tags, query@, k) by {
                        if photo_hit(self@.tags, query@, k) {
                            if k > i {
                                assert(self@.tags[i as int] is Exif);
                            }
                        }
                    }
                    return false;
                },
            }
            i = i + 1;
        }
        if n == 0 && query.is_empty() {
            return true;
        }
        false
    }

    /// Whether the object matches a free-text query. Matching is by literal
    /// substring, with no folding of case.
    pub fn search(&self, query: String) -> (r: bool)
        ensures
            r == matches_query(self@, query@),
    {
        self.matches(query.as_str())
    }

    /// [`Object::search`] for a query that is borrowed.
    pub fn matches(&self, query: &str) -> (r: bool)
        ensures
            r == matches_query(self@, query@),
    {
        match self.form {
            Form::Empty => false,
            Form::Binary => {
                let hex = hex_encode(self.data.as_slice());
                str_contains(hex.as_str(), query)
            },
            Form::Photo => self.search_tags(query),
            Form::PlainText => {
                let text = decode_lossy(self.data.as_slice());
                str_contains(text.as_str(), query)
            },
            _ => false,
        }
    }
}

impl Clone for Object {
    fn clone(&self) -> (r: Self)
        ensures
            r@ == self@,
    {
        Object { data: self.data.clone(), tags: self.tags.clone(), form: self.form.clone() }
    }
}

impl PartialEq for Object {
    fn eq(&self, other: &Self) -> (r: bool) {
        let r = self.data == other.data;
        proof {
            assert(r == (self.data@ =~= other.data@));
        }
        r
    }
}

impl PartialEqSpecImpl for Object {
    open spec fn obeys_eq_spec() -> bool {
        true
    }

    open spec fn eq_spec(&self, other: &Self) -> bool {
        same_identity(self@, other@)
    }
}

impl Eq for Object {

}

impl std::hash::Hash for Object {
    /// Feeds the payload, and nothing else, to the hasher through `Vec`'s own
    /// `hash`, so that objects that are equal hash alike. Nothing is claimed of the
    /// hasher's state.
    #[verifier::external_body]
    fn hash<H: std::hash::Hasher>(&self, state: &mut H) {
        self.data.hash(state);
    }
}

} // verus!
