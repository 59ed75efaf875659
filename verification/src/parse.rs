//! Parsing of the data OpenVPN hands a plugin.
//!
//! OpenVPN passes plugin arguments and the environment as flat,
//! null-terminated arrays of C strings; an environment entry is a single
//! byte string `KEY=VALUE`. The unsafe walk over the raw pointers happens
//! outside this crate and yields plain owned byte strings (`None` standing
//! for a null array pointer); everything from there on is verified here:
//! [`string_array`] keeps the strings exactly as given, [`env`] splits each
//! entry at its first `=` byte and builds an [`EnvMap`] where the last entry
//! for a key wins, and [`string_array_utf8`] / [`env_utf8`] convert the
//! byte-oriented forms to text. Host environments are not guaranteed to be
//! UTF-8, so the byte forms stay primary.

use vstd::prelude::*;
use vstd::string::StringExecFns;
use vstd::utf8::{decode_utf8, valid_utf8};

use crate::logging::{bytes_text, format_bytes};

verus! {

/// Error type returned by the parsing functions if the input data is
/// invalid in some way.
#[derive(Debug, Clone, PartialEq, Eq, Hash)]
pub enum ParseError {
    /// Given pointer was a null pointer.
    NullPtr,
    /// The carried environment entry has no `=` byte in it, and is thus not
    /// a valid environment entry.
    NoEqual(Vec<u8>),
    /// The carried entry is not valid UTF-8, so it cannot be converted to
    /// text.
    InvalidText(Vec<u8>),
}

/// The diagnostic line of an entry that has no `=` byte, quoting the
/// entry.
pub open spec fn no_equal_text(entry: Seq<u8>) -> Seq<char> {
    "No equal sign in \""@ + bytes_text(entry) + "\""@
}

/// The diagnostic description of a parse error, quoting the carried entry
/// where there is one.
pub open spec fn parse_error_text(error: ParseError) -> Seq<char> {
    match error {
        ParseError::NullPtr => "Input is null pointer"@,
        ParseError::NoEqual(bad) => no_equal_text(bad@),
        ParseError::InvalidText(bad) => "Invalid UTF-8 in \""@ + bytes_text(bad@) + "\""@,
    }
}

impl ParseError {
    /// The diagnostic description of the error, fit for a cause line of a
    /// report; the offending entry, where the error carries one, appears
    /// quoted.
    pub fn message(&self) -> (text: String)
        ensures
            text@ == parse_error_text(*self),
    {
        match self {
            ParseError::NullPtr => String::from_str("Input is null pointer"),
            ParseError::NoEqual(bad) => {
                let mut text = String::from_str("No equal sign in \"");
                text.append(format_bytes(bad).as_str());
                text.append("\"");
                text
            },
            ParseError::InvalidText(bad) => {
                let mut text = String::from_str("Invalid UTF-8 in \"");
                text.append(format_bytes(bad).as_str());
                text.append("\"");
                text
            },
        }
    }
}

/// The views of a sequence of owned byte strings.
pub open spec fn byte_views(strings: Seq<Vec<u8>>) -> Seq<Seq<u8>> {
    Seq::new(strings.len(), |i: int| strings[i]@)
}

/// Whether the byte string holds at least one `=` byte.
pub open spec fn has_equal(entry: Seq<u8>) -> bool {
    exists|i: int| 0 <= i < entry.len() && entry[i] == 61
}

/// The index of the first `=` byte, or the length when there is none.
pub open spec fn first_equal(entry: Seq<u8>) -> int
    decreases entry.len(),
{
    if entry.len() == 0 {
        0
    } else if entry[0] == 61 {
        0
    } else {
        1 + first_equal(entry.drop_first())
    }
}

/// `first_equal` points at the first `=` byte: everything before it differs
/// from `=`, and it stays inside the string exactly when the string has an
/// `=` at all.
pub proof fn lemma_first_equal(entry: Seq<u8>)
    ensures
        0 <= first_equal(entry) <= entry.len(),
        first_equal(entry) < entry.len() ==> entry[first_equal(entry)] == 61,
        forall|j: int| 0 <= j < first_equal(entry) ==> entry[j] != 61,
        has_equal(entry) <==> first_equal(entry) < entry.len(),
    decreases entry.len(),
{
    if entry.len() == 0 {
    } else if entry[0] == 61 {
    } else {
        let rest = entry.drop_first();
        lemma_first_equal(rest);
        assert forall|j: int| 0 <= j < first_equal(entry) implies entry[j] != 61 by {
            if j > 0 {
                assert(rest[j - 1] == entry[j]);
            }
        }
        if has_equal(entry) {
            let i = choose|i: int| 0 <= i < entry.len() && entry[i] == 61;
            assert(rest[i - 1] == 61);
            assert(has_equal(rest));
        }
        if has_equal(rest) {
            let i = choose|i: int| 0 <= i < rest.len() && rest[i] == 61;
            assert(entry[i + 1] == 61);
            assert(has_equal(entry));
        }
    }
}

/// The part of an entry before its first `=` byte.
pub open spec fn key_of(entry: Seq<u8>) -> Seq<u8> {
    entry.take(first_equal(entry))
}

/// The part of an entry after its first `=` byte.
pub open spec fn value_of(entry: Seq<u8>) -> Seq<u8> {
    entry.skip(first_equal(entry) + 1)
}

/// Whether every entry of the environment holds an `=` byte.
pub open spec fn all_have_equal(entries: Seq<Seq<u8>>) -> bool {
    forall|i: int| 0 <= i < entries.len() ==> has_equal(entries[i])
}

/// The index of the first entry without an `=` byte, or the number of
/// entries when every one has it.
pub open spec fn first_without_equal(entries: Seq<Seq<u8>>) -> int
    decreases entries.len(),
{
    if entries.len() == 0 {
        0
    } else if !has_equal(entries[0]) {
        0
    } else {
        1 + first_without_equal(entries.drop_first())
    }
}

/// `first_without_equal` points at the first entry lacking an `=` byte:
/// every entry before it has one, and it stays inside the array exactly
/// when some entry lacks an `=` at all.
pub proof fn lemma_first_without_equal(entries: Seq<Seq<u8>>)
    ensures
        0 <= first_without_equal(entries) <= entries.len(),
        first_without_equal(entries) < entries.len() ==> !has_equal(
            entries[first_without_equal(entries)],
        ),
        forall|j: int| 0 <= j < first_without_equal(entries) ==> has_equal(entries[j]),
        all_have_equal(entries) <==> first_without_equal(entries) == entries.len(),
    decreases entries.len(),
{
    if entries.len() == 0 {
    } else if !has_equal(entries[0]) {
    } else {
        let rest = entries.drop_first();
        lemma_first_without_equal(rest);
        assert forall|j: int| 0 <= j < first_without_equal(entries) implies has_equal(
            entries[j],
        ) by {
            if j > 0 {
                assert(rest[j - 1] == entries[j]);
            }
        }
        if all_have_equal(entries) {
            assert forall|i: int| 0 <= i < rest.len() implies has_equal(rest[i]) by {
                assert(rest[i] == entries[i + 1]);
            }
        }
        if all_have_equal(rest) {
            assert forall|i: int| 0 <= i < entries.len() implies has_equal(entries[i]) by {
                if i > 0 {
                    assert(rest[i - 1] == entries[i]);
                }
            }
        }
    }
}

/// The key-value map an environment array stands for: every entry is split
/// at its first `=` byte, and a later entry overwrites an earlier one with
/// the same key. An entry without `=` contributes nothing; the parser
/// rejects such an array outright.
pub open spec fn env_map_of(entries: Seq<Seq<u8>>) -> Map<Seq<u8>, Seq<u8>>
    decreases entries.len(),
{
    if entries.len() == 0 {
        Map::empty()
    } else {
        let rest = env_map_of(entries.drop_last());
        let last = entries.last();
        if has_equal(last) {
            rest.insert(key_of(last), value_of(last))
        } else {
            rest
        }
    }
}

/// Takes over an argument or environment array copied out of the native
/// boundary, where `None` stands for a null array pointer.
///
/// Returns exactly the strings that stood before the array's terminator,
/// order preserved, and fails only on a null pointer.
pub fn string_array(array: Option<Vec<Vec<u8>>>) -> (result: Result<Vec<Vec<u8>>, ParseError>)
    ensures
        array matches Some(strings) ==> (result matches Ok(out) && out == strings),
        array is None ==> (result matches Err(e) && e is NullPtr),
{
    match array {
        Some(strings) => Ok(strings),
        None => Err(ParseError::NullPtr),
    }
}

/// Copies the bytes of `bytes[start..end]` into a fresh vector.
fn bytes_range(bytes: &Vec<u8>, start: usize, end: usize) -> (out: Vec<u8>)
    requires
        start <= end <= bytes@.len(),
    ensures
        out@ == bytes@.subrange(start as int, end as int),
{
    let mut out: Vec<u8> = Vec::new();
    let mut i: usize = start;
    while i < end
        invariant
            start <= i <= end <= bytes@.len(),
            out@ == bytes@.subrange(start as int, i as int),
        decreases end - i,
    {
        out.push(bytes[i]);
        proof {
            assert(bytes@.subrange(start as int, i as int + 1) =~= bytes@.subrange(
                start as int,
                i as int,
            ).push(bytes@[i as int]));
        }
        i = i + 1;
    }
    out
}

/// The position of the first `=` byte, if any.
fn find_equal(bytes: &Vec<u8>) -> (position: Option<usize>)
    ensures
        match position {
            Some(i) => has_equal(bytes@) && i == first_equal(bytes@),
            None => !has_equal(bytes@),
        },
{
    let mut i: usize = 0;
    while i < bytes.len()
        invariant
            i <= bytes@.len(),
            forall|j: int| 0 <= j < i ==> bytes@[j] != 61,
        decreases bytes@.len() - i,
    {
        if bytes[i] == 61 {
            proof {
                lemma_first_equal(bytes@);
            }
            return Some(i);
        }
        i = i + 1;
    }
    proof {
        lemma_first_equal(bytes@);
    }
    None
}

/// Splits an environment entry at its first `=` byte into an owned key and
/// value; an entry without `=` is handed back inside the error.
pub fn split_entry(entry: &Vec<u8>) -> (result: Result<(Vec<u8>, Vec<u8>), ParseError>)
    ensures
        has_equal(entry@) ==> (result matches Ok(kv) && kv.0@ == key_of(entry@) && kv.1@
            == value_of(entry@)),
        !has_equal(entry@) ==> (result matches Err(e) && e matches ParseError::NoEqual(bad)
            && bad@ == entry@),
{
    proof {
        lemma_first_equal(entry@);
    }
    let length = entry.len();
    match find_equal(entry) {
        Some(position) => {
            let key = bytes_range(entry, 0, position);
            let value = bytes_range(entry, position + 1, length);
            Ok((key, value))
        },
        None => Err(ParseError::NoEqual(bytes_range(entry, 0, length))),
    }
}

/// Whether no two entries of an association list share a key.
pub open spec fn keys_unique(entries: Seq<(Seq<u8>, Seq<u8>)>) -> bool {
    forall|i: int, j: int| 0 <= i < j < entries.len() ==> entries[i].0 != entries[j].0
}

/// The map an association list stands for; a later entry overwrites an
/// earlier one with the same key.
pub open spec fn kv_map(entries: Seq<(Seq<u8>, Seq<u8>)>) -> Map<Seq<u8>, Seq<u8>>
    decreases entries.len(),
{
    if entries.len() == 0 {
        Map::empty()
    } else {
        kv_map(entries.drop_last()).insert(entries.last().0, entries.last().1)
    }
}

/// A key is in the map exactly when some entry carries it.
proof fn lemma_kv_map_dom(entries: Seq<(Seq<u8>, Seq<u8>)>)
    ensures
        forall|k: Seq<u8>|
            kv_map(entries).dom().contains(k) <==> exists|i: int|
                0 <= i < entries.len() && entries[i].0 == k,
        kv_map(entries).dom().finite(),
    decreases entries.len(),
{
    if entries.len() > 0 {
        lemma_kv_map_dom(entries.drop_last());
        assert forall|k: Seq<u8>| kv_map(entries).dom().contains(k) implies exists|i: int|
            0 <= i < entries.len() && entries[i].0 == k by {
            if k == entries.last().0 {
                assert(entries[entries.len() - 1].0 == k);
            } else {
                let i = choose|i: int| 0 <= i < entries.len() - 1 && entries.drop_last()[i].0 == k;
                assert(entries[i].0 == k);
            }
        }
        assert forall|k: Seq<u8>|
            (exists|i: int| 0 <= i < entries.len() && entries[i].0 == k) implies kv_map(
            entries,
        ).dom().contains(k) by {
            let i = choose|i: int| 0 <= i < entries.len() && entries[i].0 == k;
            if i < entries.len() - 1 {
                assert(entries.drop_last()[i].0 == k);
            }
        }
    }
}

/// Under unique keys, each entry's key maps to that entry's value.
proof fn lemma_kv_map_index(entries: Seq<(Seq<u8>, Seq<u8>)>, i: int)
    requires
        keys_unique(entries),
        0 <= i < entries.len(),
    ensures
        kv_map(entries).dom().contains(entries[i].0),
        kv_map(entries)[entries[i].0] == entries[i].1,
    decreases entries.len(),
{
    lemma_kv_map_dom(entries);
    if i < entries.len() - 1 {
        assert(keys_unique(entries.drop_last()));
        assert(entries.drop_last()[i] == entries[i]);
        lemma_kv_map_index(entries.drop_last(), i);
        assert(entries[i].0 != entries.last().0);
    }
}

/// Under unique keys, replacing the entry that carries a key changes the
/// map as a single insertion does.
proof fn lemma_kv_map_update(entries: Seq<(Seq<u8>, Seq<u8>)>, i: int, entry: (Seq<u8>, Seq<u8>))
    requires
        keys_unique(entries),
        0 <= i < entries.len(),
        entries[i].0 == entry.0,
    ensures
        kv_map(entries.update(i, entry)) == kv_map(entries).insert(entry.0, entry.1),
    decreases entries.len(),
{
    let updated = entries.update(i, entry);
    if i == entries.len() - 1 {
        assert(updated.drop_last() =~= entries.drop_last());
        assert(updated.last() == entry);
        assert(kv_map(entries.drop_last()).insert(entry.0, entry.1) =~= kv_map(
            entries.drop_last(),
        ).insert(entries.last().0, entries.last().1).insert(entry.0, entry.1));
    } else {
        assert(keys_unique(entries.drop_last()));
        assert(entries.drop_last()[i] == entries[i]);
        lemma_kv_map_update(entries.drop_last(), i, entry);
        assert(updated.drop_last() =~= entries.drop_last().update(i, entry));
        assert(updated.last() == entries.last());
        assert(entry.0 != entries.last().0);
        assert(kv_map(entries.drop_last()).insert(entry.0, entry.1).insert(
            entries.last().0,
            entries.last().1,
        ) =~= kv_map(entries.drop_last()).insert(entries.last().0, entries.last().1).insert(
            entry.0,
            entry.1,
        ));
    }
}

/// Under unique keys, the map holds exactly one key per entry.
proof fn lemma_kv_map_len(entries: Seq<(Seq<u8>, Seq<u8>)>)
    requires
        keys_unique(entries),
    ensures
        kv_map(entries).dom().finite(),
        kv_map(entries).dom().len() == entries.len(),
    decreases entries.len(),
{
    lemma_kv_map_dom(entries);
    if entries.len() > 0 {
        assert(keys_unique(entries.drop_last()));
        lemma_kv_map_len(entries.drop_last());
        lemma_kv_map_dom(entries.drop_last());
        assert(!kv_map(entries.drop_last()).dom().contains(entries.last().0)) by {
            if kv_map(entries.drop_last()).dom().contains(entries.last().0) {
                let i = choose|i: int|
                    0 <= i < entries.len() - 1 && entries.drop_last()[i].0 == entries.last().0;
                assert(entries[i].0 == entries[entries.len() - 1].0);
            }
        }
        assert(kv_map(entries).dom() =~= kv_map(entries.drop_last()).dom().insert(
            entries.last().0,
        ));
    }
}

/// Compares two byte strings for equality.
fn bytes_eq(a: &Vec<u8>, b: &Vec<u8>) -> (eq: bool)
    ensures
        eq <==> a@ == b@,
{
    if a.len() != b.len() {
        return false;
    }
    let mut i: usize = 0;
    while i < a.len()
        invariant
            a@.len() == b@.len(),
            i <= a@.len(),
            forall|j: int| 0 <= j < i ==> a@[j] == b@[j],
        decreases a@.len() - i,
    {
        if a[i] != b[i] {
            return false;
        }
        i = i + 1;
    }
    proof {
        assert(a@ =~= b@);
    }
    true
}

/// An environment: a mapping from owned key byte strings to owned value
/// byte strings, where inserting an existing key overwrites its value.
///
/// The view of an `EnvMap` is the mathematical [`Map`] it stands for;
/// [`EnvMap::seq_view`] additionally exposes the storage order that
/// [`env_utf8`] and iteration follow.
#[derive(Debug, PartialEq, Eq)]
pub struct EnvMap {
    entries: Vec<(Vec<u8>, Vec<u8>)>,
}

impl View for EnvMap {
    type V = Map<Seq<u8>, Seq<u8>>;

    open spec fn view(&self) -> Map<Seq<u8>, Seq<u8>> {
        kv_map(self.seq_view())
    }
}

impl EnvMap {
    /// The entries as (key, value) pairs of byte strings, in storage order.
    pub closed spec fn seq_view(&self) -> Seq<(Seq<u8>, Seq<u8>)> {
        Seq::new(self.entries@.len(), |i: int| (self.entries@[i].0@, self.entries@[i].1@))
    }

    #[verifier::type_invariant]
    spec fn wf(&self) -> bool {
        keys_unique(self.seq_view())
    }

    /// Creates an empty environment.
    pub fn new() -> (map: EnvMap)
        ensures
            map@ == Map::<Seq<u8>, Seq<u8>>::empty(),
            map.seq_view() == Seq::<(Seq<u8>, Seq<u8>)>::empty(),
    {
        let map = EnvMap { entries: Vec::new() };
        proof {
            assert(map.seq_view() =~= Seq::<(Seq<u8>, Seq<u8>)>::empty());
        }
        map
    }

    /// The entries as (key, value) pairs, in storage order.
    pub fn entries(&self) -> (entries: &Vec<(Vec<u8>, Vec<u8>)>)
        ensures
            entries@.len() == self.seq_view().len(),
            forall|i: int|
                0 <= i < entries@.len() ==> (entries@[i].0@, entries@[i].1@) == self.seq_view()[i],
    {
        &self.entries
    }

    /// The number of keys held.
    pub fn len(&self) -> (length: usize)
        ensures
            length == self@.dom().len(),
            length == self.seq_view().len(),
    {
        proof {
            use_type_invariant(&*self);
            lemma_kv_map_len(self.seq_view());
        }
        self.entries.len()
    }

    /// Looks a key up.
    pub fn get(&self, key: &Vec<u8>) -> (value: Option<&Vec<u8>>)
        ensures
            match value {
                Some(v) => self@.dom().contains(key@) && v@ == self@[key@],
                None => !self@.dom().contains(key@),
            },
    {
        proof {
            use_type_invariant(&*self);
            lemma_kv_map_dom(self.seq_view());
        }
        let mut i: usize = 0;
        while i < self.entries.len()
            invariant
                i <= self.entries@.len(),
                keys_unique(self.seq_view()),
                forall|j: int| 0 <= j < i ==> self.seq_view()[j].0 != key@,
                forall|k: Seq<u8>|
                    self@.dom().contains(k) <==> exists|j: int|
                        0 <= j < self.seq_view().len() && self.seq_view()[j].0 == k,
            decreases self.entries@.len() - i,
        {
            if bytes_eq(&self.entries[i].0, key) {
                proof {
                    assert(self.seq_view()[i as int].0 == key@);
                    lemma_kv_map_index(self.seq_view(), i as int);
                }
                return Some(&self.entries[i].1);
            }
            i = i + 1;
        }
        None
    }

    /// Inserts a key-value pair, overwriting any prior value for the key.
    pub fn insert(&mut self, key: Vec<u8>, value: Vec<u8>)
        ensures
            final(self)@ == old(self)@.insert(key@, value@),
    {
        proof {
            use_type_invariant(&*self);
        }
        let ghost old_view = self.seq_view();
        let mut entries: Vec<(Vec<u8>, Vec<u8>)> = Vec::new();
        core::mem::swap(&mut entries, &mut self.entries);
        let mut i: usize = 0;
        let mut position: Option<usize> = None;
        while i < entries.len()
            invariant
                i <= entries@.len(),
                match position {
                    Some(p) => p < entries@.len() && entries@[p as int].0@ == key@,
                    None => forall|j: int| 0 <= j < i ==> entries@[j].0@ != key@,
                },
            decreases entries@.len() - i,
        {
            if position.is_none() && bytes_eq(&entries[i].0, &key) {
                position = Some(i);
            }
            i = i + 1;
        }
        proof {
            assert(old_view =~= Seq::new(
                entries@.len(),
                |i: int| (entries@[i].0@, entries@[i].1@),
            ));
        }
        match position {
            Some(p) => {
                entries.set(p, (key, value));
                proof {
                    let new_view = Seq::new(
                        entries@.len(),
                        |i: int| (entries@[i].0@, entries@[i].1@),
                    );
                    assert(new_view =~= old_view.update(p as int, (key@, value@)));
                    lemma_kv_map_update(old_view, p as int, (key@, value@));
                    assert forall|a: int, b: int|
                        0 <= a < b < new_view.len() implies new_view[a].0 != new_view[b].0 by {
                        assert(new_view[a].0 == old_view[a].0);
                        assert(new_view[b].0 == old_view[b].0);
                    }
                }
            },
            None => {
                entries.push((key, value));
                proof {
                    let new_view = Seq::new(
                        entries@.len(),
                        |i: int| (entries@[i].0@, entries@[i].1@),
                    );
                    assert(new_view.drop_last() =~= old_view);
                    assert(new_view.last() == (key@, value@));
                    assert forall|a: int, b: int|
                        0 <= a < b < new_view.len() implies new_view[a].0 != new_view[b].0 by {
                        if b < new_view.len() - 1 {
                            assert(new_view[a].0 == old_view[a].0);
                            assert(new_view[b].0 == old_view[b].0);
                        } else {
                            assert(new_view[a].0 == old_view[a].0);
                            assert(old_view[a].0 != key@);
                        }
                    }
                }
            },
        }
        self.entries = entries;
    }
}

/// Parses an environment array copied out of the native boundary into a
/// key-value map, where `None` stands for a null array pointer.
///
/// Every entry must contain an `=` byte: each is split at its first `=`
/// and inserted, a later entry overwriting an earlier one with the same
/// key. The first entry without `=` is handed back in the error.
pub fn env(array: Option<Vec<Vec<u8>>>) -> (result: Result<EnvMap, ParseError>)
    ensures
        array is None ==> (result matches Err(e) && e is NullPtr),
        array matches Some(strings) ==> match result {
            Ok(map) => all_have_equal(byte_views(strings@)) && map@ == env_map_of(
                byte_views(strings@),
            ),
            Err(e) => {
                &&& e matches ParseError::NoEqual(bad)
                &&& !all_have_equal(byte_views(strings@))
                &&& bad@ == byte_views(strings@)[first_without_equal(byte_views(strings@))]
            },
        },
{
    match string_array(array) {
        Ok(strings) => env_from_strings(strings),
        Err(e) => Err(e),
    }
}

/// Builds the key-value map of an already copied environment array: each
/// entry is split at its first `=` and inserted, a later entry overwriting
/// an earlier one with the same key. The first entry without `=` is handed
/// back in the error.
pub fn env_from_strings(strings: Vec<Vec<u8>>) -> (result: Result<EnvMap, ParseError>)
    ensures
        match result {
            Ok(map) => all_have_equal(byte_views(strings@)) && map@ == env_map_of(
                byte_views(strings@),
            ),
            Err(e) => {
                &&& e matches ParseError::NoEqual(bad)
                &&& !all_have_equal(byte_views(strings@))
                &&& bad@ == byte_views(strings@)[first_without_equal(byte_views(strings@))]
            },
        },
{
    let ghost views = byte_views(strings@);
    let mut map = EnvMap::new();
    let mut i: usize = 0;
    while i < strings.len()
        invariant
            i <= strings@.len(),
            views == byte_views(strings@),
            map@ == env_map_of(views.take(i as int)),
            forall|j: int| 0 <= j < i ==> has_equal(strings@[j]@),
        decreases strings@.len() - i,
    {
        match split_entry(&strings[i]) {
            Ok((key, value)) => {
                map.insert(key, value);
                proof {
                    assert(views.take(i as int + 1).drop_last() =~= views.take(i as int));
                    assert(views.take(i as int + 1).last() == views[i as int]);
                }
            },
            Err(e) => {
                proof {
                    assert(!has_equal(views[i as int]));
                    lemma_first_without_equal(views);
                    assert(first_without_equal(views) == i as int) by {
                        assert(forall|j: int| 0 <= j < i ==> has_equal(views[j]));
                    }
                }
                return Err(e);
            },
        }
        i = i + 1;
    }
    proof {
        assert(views.take(strings@.len() as int) =~= views);
    }
    Ok(map)
}

/// Relies on `String::from_utf8` of std: it succeeds exactly on valid
/// UTF-8 input, and then the string's characters are the decoding of the
/// bytes, as vstd's `decode_utf8` states it.
#[verifier::external_body]
fn utf8_to_string(bytes: &Vec<u8>) -> (result: Option<String>)
    ensures
        result is Some <==> valid_utf8(bytes@),
        result matches Some(text) ==> text@ == decode_utf8(bytes@),
{
    std::string::String::from_utf8(bytes.clone()).ok()
}

/// Converts an array of byte strings into owned text, entry by entry.
///
/// Succeeds exactly when every entry is valid UTF-8; otherwise the first
/// entry that is not is handed back in the error.
pub fn string_array_utf8(strings: &Vec<Vec<u8>>) -> (result: Result<Vec<String>, ParseError>)
    ensures
        match result {
            Ok(texts) => {
                &&& forall|i: int| 0 <= i < strings@.len() ==> valid_utf8(strings@[i]@)
                &&& texts@.len() == strings@.len()
                &&& forall|i: int|
                    0 <= i < strings@.len() ==> texts@[i]@ == decode_utf8(strings@[i]@)
            },
            Err(e) => e matches ParseError::InvalidText(bad) && exists|j: int|
                {
                    &&& 0 <= j < strings@.len()
                    &&& !valid_utf8(strings@[j]@)
                    &&& bad@ == strings@[j]@
                    &&& forall|i: int| 0 <= i < j ==> valid_utf8(strings@[i]@)
                },
        },
{
    let mut texts: Vec<String> = Vec::new();
    let mut i: usize = 0;
    while i < strings.len()
        invariant
            i <= strings@.len(),
            texts@.len() == i,
            forall|j: int| 0 <= j < i ==> valid_utf8(strings@[j]@),
            forall|j: int| 0 <= j < i ==> texts@[j]@ == decode_utf8(strings@[j]@),
        decreases strings@.len() - i,
    {
        match utf8_to_string(&strings[i]) {
            Some(text) => {
                texts.push(text);
            },
            None => {
                return Err(ParseError::InvalidText(bytes_range(&strings[i], 0, strings[i].len())));
            },
        }
        i = i + 1;
    }
    Ok(texts)
}

/// Converts an environment map into owned text pairs, in the map's storage
/// order.
///
/// Succeeds exactly when every key and value is valid UTF-8; otherwise the
/// first key or value that is not (keys checked before values) is handed
/// back in the error.
pub fn env_utf8(env: &EnvMap) -> (result: Result<Vec<(String, String)>, ParseError>)
    ensures
        match result {
            Ok(pairs) => {
                &&& pairs@.len() == env.seq_view().len()
                &&& forall|i: int|
                    0 <= i < pairs@.len() ==> valid_utf8(env.seq_view()[i].0) && valid_utf8(
                        env.seq_view()[i].1,
                    )
                &&& forall|i: int|
                    0 <= i < pairs@.len() ==> pairs@[i].0@ == decode_utf8(env.seq_view()[i].0)
                        && pairs@[i].1@ == decode_utf8(env.seq_view()[i].1)
            },
            Err(e) => e matches ParseError::InvalidText(bad) && exists|j: int|
                {
                    &&& 0 <= j < env.seq_view().len()
                    &&& forall|i: int|
                        0 <= i < j ==> valid_utf8(env.seq_view()[i].0) && valid_utf8(
                            env.seq_view()[i].1,
                        )
                    &&& (!valid_utf8(env.seq_view()[j].0) && bad@ == env.seq_view()[j].0
                        || valid_utf8(env.seq_view()[j].0) && !valid_utf8(env.seq_view()[j].1)
                        && bad@ == env.seq_view()[j].1)
                },
        },
{
    let entries = env.entries();
    let mut pairs: Vec<(String, String)> = Vec::new();
    let mut i: usize = 0;
    while i < entries.len()
        invariant
            i <= entries@.len(),
            pairs@.len() == i,
            entries@.len() == env.seq_view().len(),
            forall|j: int|
                0 <= j < entries@.len() ==> (entries@[j].0@, entries@[j].1@) == env.seq_view()[j],
            forall|j: int|
                0 <= j < i ==> valid_utf8(env.seq_view()[j].0) && valid_utf8(env.seq_view()[j].1),
            forall|j: int|
                0 <= j < i ==> pairs@[j].0@ == decode_utf8(env.seq_view()[j].0) && pairs@[j].1@
                    == decode_utf8(env.seq_view()[j].1),
        decreases entries@.len() - i,
    {
        let key = match utf8_to_string(&entries[i].0) {
            Some(text) => text,
            None => {
                let bad = bytes_range(&entries[i].0, 0, entries[i].0.len());
                proof {
                    assert(bad@ =~= entries@[i as int].0@);
                    assert(env.seq_view()[i as int].0 == entries@[i as int].0@);
                    assert(!valid_utf8(env.seq_view()[i as int].0) && bad@ == env.seq_view()[
                        i as int].0);
                }
                return Err(ParseError::InvalidText(bad));
            },
        };
        let value = match utf8_to_string(&entries[i].1) {
            Some(text) => text,
            None => {
                let bad = bytes_range(&entries[i].1, 0, entries[i].1.len());
                proof {
                    assert(bad@ =~= entries@[i as int].1@);
                    assert(env.seq_view()[i as int].1 == entries@[i as int].1@);
                    assert(valid_utf8(env.seq_view()[i as int].0) && !valid_utf8(
                        env.seq_view()[i as int].1,
                    ) && bad@ == env.seq_view()[i as int].1);
                }
                return Err(ParseError::InvalidText(bad));
            },
        };
        pairs.push((key, value));
        i = i + 1;
    }
    Ok(pairs)
}

/// An entry built as `key=value` splits back into exactly that key and
/// value, provided the key itself holds no `=` byte.
pub proof fn lemma_entry_splits(key: Seq<u8>, value: Seq<u8>)
    requires
        forall|i: int| 0 <= i < key.len() ==> key[i] != 61,
    ensures
        has_equal(key + seq![61u8] + value),
        key_of(key + seq![61u8] + value) == key,
        value_of(key + seq![61u8] + value) == value,
{
    let entry = key + seq![61u8] + value;
    lemma_first_equal(entry);
    assert(entry[key.len() as int] == 61);
    assert(has_equal(entry));
    assert(first_equal(entry) <= key.len()) by {
        if first_equal(entry) > key.len() {
            assert(entry[key.len() as int] != 61);
        }
    }
    assert(first_equal(entry) == key.len()) by {
        if first_equal(entry) < key.len() {
            assert(entry[first_equal(entry)] == key[first_equal(entry)]);
        }
    }
    assert(key_of(entry) =~= key);
    assert(value_of(entry) =~= value);
}

/// Formatting a pair as `key=value` and parsing the one-entry environment
/// that holds it yields a map containing exactly that pair, provided the
/// key itself holds no `=` byte.
pub proof fn lemma_format_then_parse(key: Seq<u8>, value: Seq<u8>)
    requires
        forall|i: int| 0 <= i < key.len() ==> key[i] != 61,
    ensures
        env_map_of(seq![key + seq![61u8] + value]) == Map::<Seq<u8>, Seq<u8>>::empty().insert(
            key,
            value,
        ),
{
    let entry = key + seq![61u8] + value;
    lemma_entry_splits(key, value);
    assert(seq![entry].drop_last() =~= Seq::<Seq<u8>>::empty());
    assert(seq![entry].last() == entry);
    assert(env_map_of(Seq::<Seq<u8>>::empty()) == Map::<Seq<u8>, Seq<u8>>::empty());
    assert(env_map_of(seq![entry]) == env_map_of(seq![entry].drop_last()).insert(
        key_of(entry),
        value_of(entry),
    ));
}

/// Of two entries that share a key, the later one wins: parsing them in
/// order yields a map holding the second value alone, provided the key
/// itself holds no `=` byte.
pub proof fn lemma_later_entry_wins(key: Seq<u8>, first_value: Seq<u8>, second_value: Seq<u8>)
    requires
        forall|i: int| 0 <= i < key.len() ==> key[i] != 61,
    ensures
        env_map_of(seq![key + seq![61u8] + first_value, key + seq![61u8] + second_value])
            == Map::<Seq<u8>, Seq<u8>>::empty().insert(key, second_value),
{
    let first = key + seq![61u8] + first_value;
    let second = key + seq![61u8] + second_value;
    let both = seq![first, second];
    lemma_entry_splits(key, first_value);
    lemma_entry_splits(key, second_value);
    lemma_format_then_parse(key, first_value);
    assert(both.drop_last() =~= seq![first]);
    assert(both.last() == second);
    assert(env_map_of(both) == env_map_of(seq![first]).insert(key, second_value));
    assert(env_map_of(both) =~= Map::<Seq<u8>, Seq<u8>>::empty().insert(key, second_value));
}

} // verus!
