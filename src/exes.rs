//! The executables known to the shell, and how a typed program matches
//! them.
use crate::summary::{Summary, SummaryModel};
use crate::text::chars_of;
use vstd::prelude::*;
use vstd::string::StrSliceExecFns;
use vstd::utf8::{encode_utf8, valid_utf8};

verus! {

#[verifier::external_type_specification]
#[verifier::external_body]
#[verifier::reject_recursive_types(D)]
pub struct ExFstSet<D>(fst::Set<D>);

/// The byte strings that an `fst` set holds.
pub uninterp spec fn fst_keys(s: fst::Set<Vec<u8>>) -> Set<Seq<u8>>;

/// Whether `a` comes before `b` in lexicographic byte order.
pub open spec fn bytes_lt(a: Seq<u8>, b: Seq<u8>) -> bool
    decreases a.len(),
{
    if a.len() == 0 {
        b.len() > 0
    } else if b.len() == 0 {
        false
    } else if a[0] != b[0] {
        a[0] < b[0]
    } else {
        bytes_lt(a.drop_first(), b.drop_first())
    }
}

/// Whether the UTF-8 encodings of `names` strictly increase.
pub open spec fn strictly_sorted(names: Seq<Seq<char>>) -> bool {
    forall|i: int, j: int|
        0 <= i < j < names.len() ==> bytes_lt(
            encode_utf8(#[trigger] names[i]),
            encode_utf8(#[trigger] names[j]),
        )
}

/// The UTF-8 encodings of `names`.
pub open spec fn encoded_names(names: Seq<Seq<char>>) -> Set<Seq<u8>> {
    Set::new(|k: Seq<u8>| exists|i: int| 0 <= i < names.len() && k == encode_utf8(#[trigger] names[i]))
}

/// Whether `found` lists, in increasing byte order, the keys of `keys`
/// that start with `q`.
pub open spec fn prefix_listing(keys: Set<Seq<u8>>, q: Seq<char>, found: Seq<Seq<char>>) -> bool {
    &&& forall|i: int|
        0 <= i < found.len() ==> keys.contains(encode_utf8(#[trigger] found[i]))
            && encode_utf8(q).is_prefix_of(encode_utf8(found[i]))
    &&& strictly_sorted(found)
    &&& forall|k: Seq<u8>|
        keys.contains(k) && encode_utf8(q).is_prefix_of(k) ==> exists|i: int|
            0 <= i < found.len() && encode_utf8(#[trigger] found[i]) == k
}

/// Relies on `fst::Set::from_iter`: it builds a set of the given byte
/// strings in memory, and fails only where they do not come in strictly
/// increasing lexicographic order.
#[verifier::external_body]
fn build_set(names: &Vec<String>) -> (r: Option<fst::Set<Vec<u8>>>)
    ensures
        r matches Some(s) ==> fst_keys(s) == encoded_names(names@.map_values(|n: String| n@)),
        strictly_sorted(names@.map_values(|n: String| n@)) ==> r is Some,
{
    fst::Set::from_iter(names.iter()).ok()
}

/// Relies on `fst::Set::search` with `Str::starts_with`, and on
/// `Stream::into_strs`: the keys that start with the query, in increasing
/// lexicographic order. `into_strs` fails on a key that is not UTF-8, and
/// the list is then empty.
#[verifier::external_body]
fn prefix_search(set: &fst::Set<Vec<u8>>, query: &str) -> (r: Vec<String>)
    ensures
        (forall|k: Seq<u8>| fst_keys(*set).contains(k) ==> valid_utf8(k)) ==> prefix_listing(
            fst_keys(*set),
            query@,
            r@.map_values(|n: String| n@),
        ),
{
    let automaton = fst::Automaton::starts_with(fst::automaton::Str::new(query));
    fst::IntoStreamer::into_stream(set.search(automaton)).into_strs().unwrap_or_default()
}

/// How a found name matches the query `q`: exactly, or with a rest; `None`
/// where it does not start with `q`.
pub open spec fn summary_of(q: Seq<char>, found: Seq<char>) -> Option<SummaryModel> {
    if q.is_prefix_of(found) {
        if found.len() == q.len() {
            Some(SummaryModel::Exact(q))
        } else {
            Some(SummaryModel::Partial(q, found.skip(q.len() as int)))
        }
    } else {
        None
    }
}

/// How each found name that starts with `q` matches it, in order.
pub open spec fn summaries(q: Seq<char>, found: Seq<Seq<char>>) -> Seq<SummaryModel>
    decreases found.len(),
{
    if found.len() == 0 {
        Seq::empty()
    } else {
        let before = summaries(q, found.drop_last());
        match summary_of(q, found.last()) {
            Some(s) => before.push(s),
            None => before,
        }
    }
}

/// The best match among the summaries: the first, or no match.
pub open spec fn first_summary(ss: Seq<SummaryModel>) -> SummaryModel {
    if ss.len() > 0 {
        ss[0]
    } else {
        SummaryModel::NoMatch
    }
}

/// Whether `s` starts with `p`.
fn has_prefix(s: &str, p: &str) -> (r: bool)
    ensures
        r == p@.is_prefix_of(s@),
{
    let sv = chars_of(s);
    let pv = chars_of(p);
    if pv.len() > sv.len() {
        return false;
    }
    let mut i: usize = 0;
    while i < pv.len()
        invariant
            sv@ == s@,
            pv@ == p@,
            pv@.len() <= sv@.len(),
            i <= pv@.len(),
            forall|k: int| 0 <= k < i ==> pv@[k] == sv@[k],
        decreases pv@.len() - i,
    {
        if pv[i] != sv[i] {
            return false;
        }
        i = i + 1;
    }
    true
}

/// How each found name that starts with `query` matches it, in order.
pub fn summarize(query: &str, found: &Vec<String>) -> (r: Vec<Summary>)
    ensures
        r@.map_values(|s: Summary| s@) == summaries(query@, found@.map_values(|n: String| n@)),
{
    let ghost fv = found@.map_values(|n: String| n@);
    let qlen = query.unicode_len();
    let mut out: Vec<Summary> = Vec::new();
    let mut i: usize = 0;
    while i < found.len()
        invariant
            fv == found@.map_values(|n: String| n@),
            qlen == query@.len(),
            i <= found@.len(),
            out@.map_values(|s: Summary| s@) == summaries(query@, fv.take(i as int)),
        decreases found@.len() - i,
    {
        let name = found[i].as_str();
        let ghost before = out@;
        proof {
            assert(fv.take(i + 1).drop_last() =~= fv.take(i as int));
            assert(fv.take(i + 1).last() == name@);
        }
        if has_prefix(name, query) {
            let len = name.unicode_len();
            let summary = if len == qlen {
                Summary::Exact(query.to_owned())
            } else {
                let rest = name.substring_char(qlen, len);
                assert(rest@ =~= name@.skip(qlen as int));
                Summary::Partial(query.to_owned(), rest.to_owned())
            };
            out.push(summary);
            assert(out@.map_values(|s: Summary| s@) =~= before.map_values(|s: Summary| s@).push(
                summary@,
            ));
        }
        i = i + 1;
    }
    assert(fv.take(i as int) =~= fv);
    out
}

/// The names of the executables, as an `fst` set for prefix search.
pub struct Exes {
    set: fst::Set<Vec<u8>>,
}

impl Exes {
    /// The names held, as UTF-8 byte strings.
    pub closed spec fn names(&self) -> Set<Seq<u8>> {
        fst_keys(self.set)
    }

    pub closed spec fn wf(&self) -> bool {
        forall|k: Seq<u8>| fst_keys(self.set).contains(k) ==> valid_utf8(k)
    }

    /// The executables of `names`, which must come sorted and without
    /// duplicates; otherwise no executable is known.
    pub fn new(names: &Vec<String>) -> (r: Self)
        ensures
            r.wf(),
            strictly_sorted(names@.map_values(|n: String| n@)) ==> r.names() == encoded_names(
                names@.map_values(|n: String| n@),
            ),
            r.names() == encoded_names(names@.map_values(|n: String| n@)) || r.names()
                == Set::<Seq<u8>>::empty(),
    {
        broadcast use vstd::utf8::encode_utf8_valid_utf8;

        match build_set(names) {
            Some(set) => Self { set },
            None => {
                let none: Vec<String> = Vec::new();
                assert(strictly_sorted(none@.map_values(|n: String| n@)));
                match build_set(&none) {
                    Some(set) => {
                        assert(encoded_names(none@.map_values(|n: String| n@)) =~= Set::empty());
                        Self { set }
                    },
                    None => vstd::pervasive::unreached(),
                }
            },
        }
    }

    /// How the executables whose names start with `query` match it, in
    /// increasing order of name.
    pub fn search(&self, query: &str) -> (r: Vec<Summary>)
        requires
            self.wf(),
        ensures
            exists|found: Seq<Seq<char>>|
                #[trigger] prefix_listing(self.names(), query@, found) && r@.map_values(
                    |s: Summary| s@,
                ) == summaries(query@, found),
    {
        let found = prefix_search(&self.set, query);
        let r = summarize(query, &found);
        assert(prefix_listing(self.names(), query@, found@.map_values(|n: String| n@)));
        r
    }

    /// The best match for `query`: that of the first name that starts with
    /// it, or no match.
    pub fn search_one(&self, query: &str) -> (r: Summary)
        requires
            self.wf(),
        ensures
            exists|found: Seq<Seq<char>>|
                #[trigger] prefix_listing(self.names(), query@, found) && r@ == first_summary(
                    summaries(query@, found),
                ),
    {
        let mut results = self.search(query);
        if results.len() > 0 {
            results.remove(0)
        } else {
            Summary::NoMatch
        }
    }
}

/// Whether a file with permission bits `mode`, owned by user `uid` and
/// group `gid`, may be run by user `user` of group `group`: its owner may
/// run it, or its group may, or anyone may.
pub fn can_execute(user: u32, group: u32, mode: u32, uid: u32, gid: u32) -> (r: bool)
    ensures
        r == ((uid == user && mode & 0o100 != 0) || (gid == group && mode & 0o010 != 0) || mode
            & 0o001 != 0),
{
    let user_execute = mode & 0o100 != 0;
    let group_execute = mode & 0o010 != 0;
    let other_execute = mode & 0o001 != 0;
    (uid == user && user_execute) || (gid == group && group_execute) || other_execute
}

} // verus!
