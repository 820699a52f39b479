//! The collection of objects, which holds at most one object for each payload, and
//! the import of a file's bytes into it.

use crate::magic_identify::{classified, magic_identify};
use crate::object::builders::{binary, built, exif_fields, photo, photo_tags, plain_text};
use crate::object::{matches_query, same_identity, Form, FormView, Object, ObjectView};
use crate::text::decode_lossy;
use vstd::prelude::*;
use vstd::string::{StrSliceExecFns, StringExecFns};
use vstd::utf8::*;

verus! {

/// An object with the payload `data` is at index `i` of `objects`.
pub open spec fn held_at(objects: Seq<ObjectView>, data: Seq<u8>, i: int) -> bool {
    0 <= i < objects.len() && objects[i].data == data
}

/// Some object of `objects` has the payload `data`.
pub open spec fn holds(objects: Seq<ObjectView>, data: Seq<u8>) -> bool {
    exists|i: int| held_at(objects, data, i)
}

/// No two objects of `objects` have the same payload.
pub open spec fn distinct_payloads(objects: Seq<ObjectView>) -> bool {
    forall|i: int, j: int|
        0 <= i < j < objects.len() ==> (#[trigger] objects[i]).data != (#[trigger] objects[j]).data
}

/// `objects` with `object` added at the end, unless an object with the same
/// payload is among them already: the object that came first stays.
pub open spec fn with_object(objects: Seq<ObjectView>, object: ObjectView) -> Seq<ObjectView> {
    if holds(objects, object.data) {
        objects
    } else {
        objects.push(object)
    }
}

/// `objects` without the object that has the payload `data`, if there is one.
pub open spec fn without_payload(objects: Seq<ObjectView>, data: Seq<u8>) -> Seq<ObjectView> {
    if holds(objects, data) {
        objects.remove(choose|i: int| held_at(objects, data, i))
    } else {
        objects
    }
}

/// All of `objects` added one after the other to an empty collection.
pub open spec fn collected(objects: Seq<ObjectView>) -> Seq<ObjectView>
    decreases objects.len(),
{
    if objects.len() == 0 {
        seq![]
    } else {
        with_object(collected(objects.drop_last()), objects.last())
    }
}

/// The object at index `i` has the form `form` and matches `query`.
pub open spec fn selected(objects: Seq<ObjectView>, form: FormView, query: Seq<char>, i: int) -> bool {
    &&& 0 <= i < objects.len()
    &&& objects[i].form == form
    &&& matches_query(objects[i], query)
}

/// The object that importing a file with the bytes `data` makes. Its payload is
/// `data` as it is and its form is what the classifier says of `data`; a photo has
/// the tags of its metadata, and any other object has none.
pub open spec fn imported(data: Seq<u8>) -> ObjectView {
    match classified(data) {
        FormView::PlainText => built(data, FormView::PlainText, seq![]),
        FormView::Photo => built(data, FormView::Photo, photo_tags(exif_fields(data))),
        _ => built(data, FormView::Binary, seq![]),
    }
}

/// `text` cut down for a label of about `to` bytes: where `to` is above three and
/// the UTF-8 encoding of `text` is longer than `to` bytes, the first `to - 3`
/// characters of `text`, or all of them where it has fewer, and an ellipsis;
/// `text` itself otherwise.
pub open spec fn truncated(text: Seq<char>, to: nat) -> Seq<char> {
    if to > 3 && encode_utf8(text).len() > to {
        (if to - 3 < text.len() {
            text.take(to - 3)
        } else {
            text
        }).push('\u{2026}')
    } else {
        text
    }
}

/// Adding an object keeps the payloads distinct.
pub proof fn lemma_with_object_distinct(objects: Seq<ObjectView>, object: ObjectView)
    requires
        distinct_payloads(objects),
    ensures
        distinct_payloads(with_object(objects, object)),
        holds(with_object(objects, object), object.data),
{
    let after = with_object(objects, object);
    if holds(objects, object.data) {
    } else {
        assert forall|i: int, j: int| 0 <= i < j < after.len() implies after[i].data
            != after[j].data by {
            if j == after.len() - 1 {
                assert(!held_at(objects, object.data, i));
            }
        }
        assert(held_at(after, object.data, objects.len() as int));
    }
}

/// Inserting the same bytes twice is inserting them once: the second insertion
/// changes neither the size of the collection nor any object in it, so that the
/// object that was inserted first is kept, with its own tags and form.
pub proof fn lemma_insert_twice(objects: Seq<ObjectView>, first: ObjectView, second: ObjectView)
    requires
        distinct_payloads(objects),
        same_identity(first, second),
    ensures
        with_object(with_object(objects, first), second) == with_object(objects, first),
        with_object(with_object(objects, first), second).len() == with_object(objects, first).len(),
        !holds(objects, first.data) ==> with_object(with_object(objects, first), second).last()
            == first,
{
    lemma_with_object_distinct(objects, first);
}

/// A collection that is built again from its own objects, in their order, is the
/// same collection.
pub proof fn lemma_collected_restores(objects: Seq<ObjectView>)
    requires
        distinct_payloads(objects),
    ensures
        collected(objects) == objects,
    decreases objects.len(),
{
    if objects.len() > 0 {
        let rest = objects.drop_last();
        lemma_collected_restores(rest);
        if holds(rest, objects.last().data) {
            let i = choose|i: int| held_at(rest, objects.last().data, i);
            assert(objects[i].data != objects[objects.len() - 1].data);
        }
        assert(rest.push(objects.last()) =~= objects);
    } else {
        assert(objects =~= seq![]);
    }
}

/// The values of a sequence of objects.
pub open spec fn object_views(objects: Seq<Object>) -> Seq<ObjectView> {
    Seq::new(objects.len(), |i: int| objects[i]@)
}

/// A set of objects, told apart by their payloads alone. The objects are kept in
/// the order in which they were inserted.
#[derive(Debug)]
pub struct Collection {
    objects: Vec<Object>,
}

impl View for Collection {
    type V = Seq<ObjectView>;

    closed spec fn view(&self) -> Seq<ObjectView> {
        object_views(self.objects@)
    }
}

impl Collection {
    #[verifier::type_invariant]
    spec fn distinct(self) -> bool {
        distinct_payloads(self@)
    }

    /// The empty collection.
    pub fn new() -> (r: Self)
        ensures
            r@ == Seq::<ObjectView>::empty(),
    {
        let r = Collection { objects: Vec::new() };
        assert(r@ =~= Seq::<ObjectView>::empty());
        r
    }

    /// The collection of the objects of `objects`, each added in turn: an object
    /// whose payload came before is not added.
    pub fn from_vec(objects: Vec<Object>) -> (r: Self)
        ensures
            r@ == collected(object_views(objects@)),
    {
        let mut r = Collection::new();
        let ghost all = object_views(objects@);
        proof {
            assert(all.take(0) =~= Seq::<ObjectView>::empty());
        }
        for object in it: objects.into_iter()
            invariant
                object_views(it.seq()) == all,
                r@ == collected(all.take(it.index())),
        {
            proof {
                let k = it.index();
                assert(all.take(k + 1).drop_last() =~= all.take(k));
                assert(all.take(k + 1).last() == object@);
            }
            r.insert(object);
        }
        proof {
            assert(all.take(all.len() as int) =~= all);
        }
        r
    }

    /// How many objects the collection holds. No payload is counted twice.
    pub fn len(&self) -> (n: usize)
        ensures
            n == self@.len(),
            distinct_payloads(self@),
    {
        proof {
            use_type_invariant(self);
        }
        self.objects.len()
    }

    /// Whether the collection holds no object.
    pub fn is_empty(&self) -> (r: bool)
        ensures
            r == (self@.len() == 0),
    {
        self.objects.len() == 0
    }

    /// The object at position `index` in insertion order.
    pub fn get(&self, index: usize) -> (object: &Object)
        requires
            index < self@.len(),
        ensures
            object@ == self@[index as int],
    {
        &self.objects[index]
    }

    /// Where the object with the payload `data` stands, if the collection holds
    /// one.
    pub fn position(&self, data: &Vec<u8>) -> (r: Option<usize>)
        ensures
            match r {
                Some(i) => held_at(self@, data@, i as int),
                None => !holds(self@, data@),
            },
    {
        let mut i: usize = 0;
        while i < self.objects.len()
            invariant
                i <= self.objects.len(),
                forall|j: int| 0 <= j < i ==> !held_at(self@, data@, j),
            decreases self.objects.len() - i,
        {
            if self.objects[i].data == *data {
                assert(self@[i as int].data =~= data@);
                return Some(i);
            }
            assert(!(self@[i as int].data =~= data@));
            i = i + 1;
        }
        None
    }

    /// Whether the collection holds an object with the same payload as `object`.
    pub fn contains(&self, object: &Object) -> (r: bool)
        ensures
            r == holds(self@, object@.data),
    {
        self.position(&object.data).is_some()
    }

    /// Adds `object` unless the collection holds an object with the same payload
    /// already, and says whether it was added. An object that is in the collection
    /// stays as it is, with its own tags and form.
    pub fn insert(&mut self, object: Object) -> (added: bool)
        ensures
            final(self)@ == with_object(old(self)@, object@),
            added == !holds(old(self)@, object@.data),
            distinct_payloads(final(self)@),
    {
        proof {
            use_type_invariant(&*self);
        }
        if self.contains(&object) {
            false
        } else {
            let ghost before = self@;
            let mut objects = Vec::new();
            std::mem::swap(&mut objects, &mut self.objects);
            objects.push(object);
            proof {
                let after = object_views(objects@);
                assert(after =~= before.push(object@));
                assert forall|i: int, j: int| 0 <= i < j < after.len() implies after[i].data
                    != after[j].data by {
                    if j == after.len() - 1 {
                        assert(!held_at(before, object@.data, i));
                    }
                }
            }
            self.objects = objects;
            true
        }
    }

    /// Takes out the object that has the same payload as `object`, if the
    /// collection holds one, and says whether it did.
    pub fn remove(&mut self, object: &Object) -> (removed: bool)
        ensures
            final(self)@ == without_payload(old(self)@, object@.data),
            removed == holds(old(self)@, object@.data),
            distinct_payloads(final(self)@),
    {
        proof {
            use_type_invariant(&*self);
        }
        match self.position(&object.data) {
            Some(i) => {
                let ghost before = self@;
                let mut objects = Vec::new();
                std::mem::swap(&mut objects, &mut self.objects);
                let _ = objects.remove(i);
                proof {
                    let after = object_views(objects@);
                    let k = choose|k: int| held_at(before, object@.data, k);
                    assert(held_at(before, object@.data, i as int));
                    assert(k == i) by {
                        if k < i {
                            assert(before[k].data != before[i as int].data);
                        } else if i < k {
                            assert(before[i as int].data != before[k].data);
                        }
                    }
                    assert(after =~= before.remove(i as int));
                    assert forall|a: int, b: int| 0 <= a < b < after.len() implies after[a].data
                        != after[b].data by {
                        let a0 = if a < i { a } else { a + 1 };
                        let b0 = if b < i { b } else { b + 1 };
                        assert(after[a] == before[a0]);
                        assert(after[b] == before[b0]);
                    }
                }
                self.objects = objects;
                true
            },
            None => false,
        }
    }

    /// The positions, in rising order, of the objects that have the form `form`
    /// and match `query`.
    pub fn select(&self, form: &Form, query: &str) -> (found: Vec<usize>)
        ensures
            forall|k: int| 0 <= k < found@.len() ==> selected(self@, form@, query@, found@[k] as int),
            forall|k: int, l: int| 0 <= k < l < found@.len() ==> found@[k] < found@[l],
            forall|i: int| selected(self@, form@, query@, i) ==> found@.contains(i as usize),
    {
        let mut found: Vec<usize> = Vec::new();
        let mut i: usize = 0;
        while i < self.objects.len()
            invariant
                i <= self.objects.len(),
                forall|k: int| 0 <= k < found@.len() ==> selected(self@, form@, query@, found@[k] as int),
                forall|k: int| 0 <= k < found@.len() ==> found@[k] < i,
                forall|k: int, l: int| 0 <= k < l < found@.len() ==> found@[k] < found@[l],
                forall|j: int| 0 <= j < i && selected(self@, form@, query@, j) ==> found@.contains(j as usize),
            decreases self.objects.len() - i,
        {
            let object = &self.objects[i];
            if object.form == *form && object.matches(query) {
                let ghost before = found@;
                found.push(i);
                proof {
                    assert(found@[found@.len() - 1] == i);
                    assert forall|j: int| 0 <= j <= i && selected(self@, form@, query@, j) implies found@.contains(j as usize) by {
                        if j < i {
                            assert(before.contains(j as usize));
                            let k = choose|k: int| 0 <= k < before.len() && before[k] == j as usize;
                            assert(found@[k] == j as usize);
                        }
                    }
                }
            }
            i = i + 1;
        }
        found
    }
}

/// Imports the bytes of one file: classifies them, builds the object of that
/// form, and adds it to `objects` unless an object with the same bytes is there
/// already. Every input can be imported.
pub fn import_file_bytes(data: Vec<u8>, objects: &mut Collection) -> (r: Option<()>)
    ensures
        r == Some(()),
        final(objects)@ == with_object(old(objects)@, imported(data@)),
{
    let form = magic_identify(data.as_slice());
    match form {
        Form::PlainText => {
            let text = decode_lossy(data.as_slice());
            proof {
                decode_utf8_encode_utf8(data@);
            }
            objects.insert(plain_text(text));
        },
        Form::Photo => {
            objects.insert(photo(data));
        },
        _ => {
            objects.insert(binary(data));
        },
    }
    Some(())
}

/// Cuts `s` down for a label: see [`truncated`].
pub fn truncate_dotted(s: String, to: usize) -> (r: String)
    ensures
        r@ == truncated(s@, to as nat),
{
    if to > 3 && s.as_str().as_bytes().len() > to {
        let count = s.as_str().unicode_len();
        let keep = if to - 3 < count {
            to - 3
        } else {
            count
        };
        let mut r = String::from_str(s.as_str().substring_char(0, keep));
        r.append("\u{2026}");
        proof {
            reveal_strlit("\u{2026}");
            assert(s@.subrange(0, keep as int) =~= s@.take(keep as int));
            assert(s@.take(s@.len() as int) =~= s@);
            assert("\u{2026}"@ =~= seq!['\u{2026}']);
            assert(r@ =~= truncated(s@, to as nat));
        }
        r
    } else {
        s
    }
}

} // verus!
