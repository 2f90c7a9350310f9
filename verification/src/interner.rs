//! Identifiers by number.
//!
//! The bridge hands identifiers around as plain numbers. An [`IdentInterner`]
//! gives each distinct identifier (its text together with its span) a number
//! and finds the identifier of a number again.

use vstd::hash_map::StringHashMap;
use vstd::prelude::*;

use crate::tt::{Ident, IdentView, TokenId};

verus! {

/// Number of an interned identifier.
#[derive(Debug, Hash, Eq, PartialEq, Copy, Clone)]
pub struct IdentId(u32);

impl View for IdentId {
    type V = u32;

    closed spec fn view(&self) -> u32 {
        self.0
    }
}

impl IdentId {
    pub(crate) fn from_index(index: u32) -> (id: IdentId)
        ensures
            id@ == index,
    {
        IdentId(index)
    }

    pub(crate) fn index(self) -> (index: u32)
        ensures
            index == self@,
    {
        self.0
    }

    /// An identifier's number is all there is to it.
    pub proof fn lemma_view_is_injective(a: IdentId, b: IdentId)
        requires
            a@ == b@,
        ensures
            a == b,
    {
    }
}

/// An identifier as the interner keeps it.
#[derive(Debug, Hash, Eq, PartialEq)]
pub struct IdentData(pub Ident);

impl View for IdentData {
    type V = IdentView;

    open spec fn view(&self) -> IdentView {
        self.0@
    }
}

impl Clone for IdentData {
    fn clone(&self) -> (res: Self)
        ensures
            res@ == self@,
    {
        IdentData(self.0.clone())
    }
}

/// The place of an identifier: where it stands, or the end if it is new.
pub open spec fn intern_position(names: Seq<IdentView>, name: IdentView) -> int {
    if names.contains(name) {
        names.index_of(name)
    } else {
        names.len() as int
    }
}

/// The number of an identifier: its place, as far as 32 bits hold it.
pub open spec fn intern_index(names: Seq<IdentView>, name: IdentView) -> u32 {
    (intern_position(names, name) % 0x1_0000_0000) as u32
}

/// The identifiers after one was asked for: a new one is added at the end.
pub open spec fn interned(names: Seq<IdentView>, name: IdentView) -> Seq<IdentView> {
    if names.contains(name) {
        names
    } else {
        names.push(name)
    }
}

/// What finding an identifier again takes besides its text: its span, and the
/// place of the one before it with the same text.
struct Link {
    id: TokenId,
    older: Option<usize>,
}

/// Identifiers in the order in which they were first seen.
///
/// Those that share a text are linked from the newest to the oldest, and the
/// newest is found by its text, in a hash map.
pub struct IdentInterner {
    idents: StringHashMap<usize>,
    links: Vec<Link>,
    ident_data: Vec<IdentData>,
}

impl View for IdentInterner {
    type V = Seq<IdentView>;

    closed spec fn view(&self) -> Seq<IdentView> {
        self.ident_data@.map_values(|data: IdentData| data@)
    }
}

impl IdentInterner {
    /// No place from `from` up to `to` holds an identifier of this text.
    spec fn no_text_between(&self, text: Seq<char>, from: int, to: int) -> bool {
        forall|i: int| from <= i < to ==> (#[trigger] self@[i]).text != text
    }

    /// No identifier is kept twice, and the links lead through all those that
    /// share a text.
    pub closed spec fn wf(&self) -> bool {
        &&& self@.no_duplicates()
        &&& self.links.len() == self.ident_data.len()
        &&& forall|text: Seq<char>| #[trigger]
            self.idents@.contains_key(text) ==> {
                let newest = self.idents@[text] as int;
                &&& newest < self@.len()
                &&& self@[newest].text == text
                &&& self.no_text_between(text, newest + 1, self@.len() as int)
            }
        &&& forall|i: int|
            0 <= i < self@.len() ==> self.idents@.contains_key((#[trigger] self@[i]).text)
        &&& forall|i: int|
            0 <= i < self@.len() ==> (#[trigger] self.links@[i]).id == self@[i].id
        &&& forall|i: int|
            0 <= i < self@.len() ==> match (#[trigger] self.links@[i]).older {
                Some(older) => {
                    &&& older < i
                    &&& self@[older as int].text == self@[i].text
                    &&& self.no_text_between(self@[i].text, older + 1, i)
                },
                None => self.no_text_between(self@[i].text, 0, i),
            }
    }

    /// No identifier is kept twice.
    pub proof fn lemma_wf(&self)
        requires
            self.wf(),
        ensures
            self@.no_duplicates(),
    {
    }

    /// Where the identifier stands, if it was seen before.
    fn find(&self, data: &IdentData) -> (res: Option<usize>)
        requires
            self.wf(),
        ensures
            match res {
                Some(i) => i < self@.len() && self@[i as int] == data@,
                None => !self@.contains(data@),
            },
    {
        let mut next: Option<usize> = match self.idents.get(data.0.text.as_str()) {
            Some(newest) => Some(*newest),
            None => None,
        };
        let ghost mut end: int = self@.len() as int;
        loop
            invariant
                self.wf(),
                0 <= end <= self@.len(),
                match next {
                    Some(i) => {
                        &&& i < end
                        &&& self@[i as int].text == data@.text
                        &&& self.no_text_between(data@.text, i + 1, end)
                    },
                    None => self.no_text_between(data@.text, 0, end),
                },
                forall|j: int| end <= j < self@.len() ==> #[trigger] self@[j] != data@,
            decreases end,
        {
            let i = match next {
                Some(i) => i,
                None => return None,
            };
            if self.links[i].id == data.0.id {
                assert(self@[i as int] =~= data@);
                return Some(i);
            }
            proof {
                end = i as int;
            }
            next = self.links[i].older;
        }
    }

    /// The number of an identifier, which is added if it was not seen before.
    pub fn intern(&mut self, data: &IdentData) -> (index: u32)
        requires
            old(self).wf(),
        ensures
            final(self).wf(),
            final(self)@ == interned(old(self)@, data@),
            index == intern_index(old(self)@, data@),
    {
        if let Some(i) = self.find(data) {
            return truncated(i);
        }
        let i = self.ident_data.len();
        let older = match self.idents.get(data.0.text.as_str()) {
            Some(newest) => Some(*newest),
            None => None,
        };
        self.ident_data.push(data.clone());
        self.links.push(Link { id: data.0.id, older });
        self.idents.insert(data.0.text.clone(), i);
        assert(self@ =~= old(self)@.push(data@));
        truncated(i)
    }

    /// The identifier of a number.
    pub fn get(&self, index: u32) -> (data: &IdentData)
        requires
            index < self@.len(),
        ensures
            data@ == self@[index as int],
    {
        &self.ident_data[index as usize]
    }

    /// The identifier of a number, to be changed in place. It is still found by
    /// what it was.
    #[allow(unused)]
    fn get_mut(&mut self, index: u32) -> (data: &mut IdentData)
        requires
            index < old(self)@.len(),
        ensures
            data@ == old(self)@[index as int],
            final(self)@ == old(self)@.update(index as int, final(data)@),
            final(self).idents == old(self).idents,
            final(self).links == old(self).links,
    {
        &mut self.ident_data[index as usize]
    }

    /// Whether there is an identifier of this number.
    pub fn contains(&self, index: u32) -> (res: bool)
        ensures
            res == (index < self@.len()),
    {
        (index as usize) < self.ident_data.len()
    }
}

impl Default for IdentInterner {
    fn default() -> (interner: Self)
        ensures
            interner.wf(),
            interner@ == Seq::<IdentView>::empty(),
    {
        IdentInterner { idents: StringHashMap::new(), links: Vec::new(), ident_data: Vec::new() }
    }
}

/// The low 32 bits of a place.
fn truncated(i: usize) -> (index: u32)
    ensures
        index == i as int % 0x1_0000_0000,
{
    assert(i as u32 == i as u64 % 0x1_0000_0000) by (bit_vector);
    #[verifier::truncate] (i as u32)
}

/// The number given for an identifier leads back to it.
pub proof fn intern_reads_back(names: Seq<IdentView>, name: IdentView)
    requires
        intern_position(names, name) < 0x1_0000_0000,
    ensures
        intern_index(names, name) < interned(names, name).len(),
        interned(names, name)[intern_index(names, name) as int] == name,
{
}

/// An identifier keeps its number: asking again gives the same one and adds
/// nothing.
pub proof fn intern_is_idempotent(names: Seq<IdentView>, name: IdentView)
    requires
        names.no_duplicates(),
    ensures
        interned(interned(names, name), name) == interned(names, name),
        intern_index(interned(names, name), name) == intern_index(names, name),
{
    let after = interned(names, name);
    if !names.contains(name) {
        assert(after[names.len() as int] == name);
        assert(after.index_of(name) == names.len());
    }
}

/// Adding an identifier leaves the earlier ones and their numbers alone, and
/// keeps all of them distinct.
pub proof fn intern_keeps_earlier(names: Seq<IdentView>, name: IdentView, earlier: IdentView)
    requires
        names.no_duplicates(),
        names.contains(earlier),
    ensures
        names.is_prefix_of(interned(names, name)),
        interned(names, name).no_duplicates(),
        interned(names, name).contains(earlier),
        intern_index(interned(names, name), earlier) == intern_index(names, earlier),
{
    let after = interned(names, name);
    let i = names.index_of(earlier);
    assert(after[i] == earlier);
    assert(names.is_prefix_of(after));
    assert(after.no_duplicates());
    assert(after.index_of(earlier) == i);
}

/// Two identifiers have the same number exactly where they are the same text
/// with the same span.
pub proof fn intern_tells_apart(names: Seq<IdentView>, a: IdentView, b: IdentView)
    requires
        names.no_duplicates(),
        names.contains(a),
        names.contains(b),
        intern_position(names, a) < 0x1_0000_0000,
        intern_position(names, b) < 0x1_0000_0000,
    ensures
        intern_index(names, a) == intern_index(names, b) <==> a == b,
{
}

/// Asking for an identifier leaves all of them distinct and the earlier ones
/// where they were; it adds that one, at the end, exactly where it was not there.
pub proof fn intern_adds_at_most_one(names: Seq<IdentView>, name: IdentView)
    requires
        names.no_duplicates(),
    ensures
        interned(names, name).no_duplicates(),
        names.is_prefix_of(interned(names, name)),
        interned(names, name).contains(name),
        names.contains(name) ==> interned(names, name).len() == names.len(),
        !names.contains(name) ==> interned(names, name).len() == names.len() + 1
            && interned(names, name).last() == name,
{
    let after = interned(names, name);
    if !names.contains(name) {
        assert(after[names.len() as int] == name);
    }
    assert(after.no_duplicates());
}

/// The number of an identifier is the place at which it is kept, as far as 32
/// bits hold it.
pub proof fn intern_index_is_place(names: Seq<IdentView>, name: IdentView, place: int)
    requires
        names.no_duplicates(),
        0 <= place < interned(names, name).len(),
        interned(names, name)[place] == name,
    ensures
        intern_index(names, name) == place % 0x1_0000_0000,
{
    if names.contains(name) {
        assert(names.index_of(name) == place);
    } else if place < names.len() {
        assert(names[place] == name);
    }
}

} // verus!
