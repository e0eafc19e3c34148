//! Namespace resolution: reads the server's namespace-array variable over an
//! established session and turns it into a URI-to-index map.

use crate::status::{ServiceError, StatusCode};
use crate::variant::{variant_view, Variant, VariantView};
use vstd::prelude::*;

verus! {

/// Numeric identifier of the server's namespace-array variable.
pub const VARIABLE_SERVER_NAMESPACE_ARRAY: u32 = 2255;

/// One attribute read result: the value delivered, if any, and the status the
/// server reported for it.
#[derive(Debug)]
pub struct DataValue {
    pub value: Option<Variant>,
    pub status: StatusCode,
}

/// Mathematical value of a [`DataValue`].
pub struct DataValueView {
    pub value: Option<VariantView>,
    pub status: StatusCode,
}

impl View for DataValue {
    type V = DataValueView;

    open spec fn view(&self) -> DataValueView {
        DataValueView {
            value: match &self.value {
                Some(v) => Some(variant_view(*v)),
                None => None,
            },
            status: self.status,
        }
    }
}

/// Mathematical values of a sequence of read results, in order.
pub open spec fn data_values_view(s: Seq<DataValue>) -> Seq<DataValueView>
    decreases s,
{
    if s.len() == 0 {
        Seq::empty()
    } else {
        data_values_view(s.drop_last()).push(s.last()@)
    }
}

/// The view of a sequence of read results has the same length, and its
/// members are the members' views.
pub proof fn lemma_data_values_view_index(s: Seq<DataValue>)
    ensures
        data_values_view(s).len() == s.len(),
        forall|i: int| 0 <= i < s.len() ==> #[trigger] data_values_view(s)[i] == s[i]@,
    decreases s,
{
    if s.len() > 0 {
        lemma_data_values_view_index(s.drop_last());
    }
}

/// The part of a session that can read the namespace-array variable. The live
/// protocol session implements it outside the library; tests implement it
/// with canned replies.
pub trait AttributeService {
    /// Reads the server's namespace-array variable, waiting at most the
    /// configured timeout for session access.
    fn read_namespace_array(&self) -> Result<Vec<DataValue>, ServiceError>;
}

/// Why namespace resolution failed.
#[derive(Clone, Copy, Debug, PartialEq, Eq, Structural)]
pub enum NamespacesError {
    /// The session lock was not acquired in time.
    LockTimeout,
    /// The read call itself failed with this status.
    Read(StatusCode),
    /// The read reply carried no result at all.
    MissingReadResult,
    /// The result carried no value; its status is kept for diagnosis.
    MissingValue(StatusCode),
    /// The value was not an array.
    NotAnArray,
    /// The namespace array had no members.
    EmptyNamespaceArray,
    /// An array member was not a string.
    BadMemberType,
    /// The array was longer than the protocol's 16-bit namespace index space.
    TooManyNamespaces,
}

/// Map from namespace URI to the namespace's index in the server's namespace
/// array, resolved once per session.
#[derive(Debug, PartialEq, Eq)]
pub struct Namespaces {
    pairs: Vec<(String, u16)>,
}

/// The map described by an association list, later entries winning.
pub open spec fn pairs_map(s: Seq<(String, u16)>) -> Map<Seq<char>, u16>
    decreases s,
{
    if s.len() == 0 {
        Map::empty()
    } else {
        pairs_map(s.drop_last()).insert(s.last().0@, s.last().1)
    }
}

impl View for Namespaces {
    type V = Map<Seq<char>, u16>;

    closed spec fn view(&self) -> Map<Seq<char>, u16> {
        pairs_map(self.pairs@)
    }
}

impl Namespaces {
    /// The stored pairs bind distinct URIs.
    pub closed spec fn wf(&self) -> bool {
        pairs_distinct(self.pairs@)
    }

    /// An empty map.
    pub fn new() -> (r: Namespaces)
        ensures
            r.wf(),
            r@ == Map::<Seq<char>, u16>::empty(),
    {
        Namespaces { pairs: Vec::new() }
    }

    /// How many URIs are bound.
    pub fn len(&self) -> (r: usize)
        requires
            self.wf(),
        ensures
            r == self@.dom().len(),
    {
        proof {
            lemma_pairs_map_wf_len(self.pairs@);
        }
        self.pairs.len()
    }

    /// Binds a URI to an index, replacing any earlier binding of the same
    /// URI.
    pub fn insert(&mut self, uri: String, index: u16)
        requires
            old(self).wf(),
        ensures
            final(self).wf(),
            final(self)@ == old(self)@.insert(uri@, index),
    {
        let ghost orig = self.pairs@;
        let mut i: usize = 0;
        while i < self.pairs.len()
            invariant
                orig == old(self).pairs@,
                self.pairs@ == orig,
                pairs_distinct(orig),
                i <= orig.len(),
                forall|j: int| 0 <= j < i ==> (#[trigger] orig[j]).0@ != uri@,
            decreases orig.len() - i,
        {
            if self.pairs[i].0 == uri {
                self.pairs[i].1 = index;
                proof {
                    assert(self.pairs@ =~= orig.update(i as int, (orig[i as int].0, index)));
                    lemma_pairs_map_update(orig, i as int, uri@, index);
                }
                return ;
            }
            i += 1;
        }
        self.pairs.push((uri, index));
        proof {
            assert(self.pairs@.drop_last() =~= orig);
            lemma_pairs_map_membership(orig);
        }
    }

    /// Looks a URI up.
    pub fn get(&self, uri: &String) -> (r: Option<u16>)
        requires
            self.wf(),
        ensures
            r == if self@.contains_key(uri@) {
                Some(self@[uri@])
            } else {
                None::<u16>
            },
    {
        let mut i: usize = 0;
        while i < self.pairs.len()
            invariant
                pairs_distinct(self.pairs@),
                self.wf(),
                i <= self.pairs@.len(),
                forall|j: int| 0 <= j < i ==> (#[trigger] self.pairs@[j]).0@ != uri@,
            decreases self.pairs@.len() - i,
        {
            if self.pairs[i].0 == *uri {
                proof {
                    lemma_pairs_map_membership(self.pairs@);
                }
                return Some(self.pairs[i].1);
            }
            i += 1;
        }
        proof {
            lemma_pairs_map_membership(self.pairs@);
            if self@.contains_key(uri@) {
                let ghost w = choose|k: int|
                    0 <= k < self.pairs@.len() && (#[trigger] self.pairs@[k]).0@ == uri@;
                assert(false);
            }
        }
        None
    }
}

/// Whether an association list binds each URI at most once.
pub open spec fn pairs_distinct(s: Seq<(String, u16)>) -> bool {
    forall|i: int, j: int|
        0 <= i < j < s.len() ==> (#[trigger] s[i]).0@ != (#[trigger] s[j]).0@
}

/// The map of an association list binds exactly the listed URIs; a pair whose
/// URI is bound by no later pair gives its binding.
proof fn lemma_pairs_map_membership(s: Seq<(String, u16)>)
    ensures
        forall|uri: Seq<char>|
            #[trigger] pairs_map(s).contains_key(uri) <==> exists|i: int|
                0 <= i < s.len() && (#[trigger] s[i]).0@ == uri,
        forall|i: int|
            0 <= i < s.len() && (forall|j: int| i < j < s.len() ==> (#[trigger] s[j]).0@ != s[i].0@)
                ==> pairs_map(s).contains_key((#[trigger] s[i]).0@) && pairs_map(s)[s[i].0@]
                == s[i].1,
    decreases s,
{
    if s.len() > 0 {
        let s0 = s.drop_last();
        lemma_pairs_map_membership(s0);
        assert(pairs_map(s) == pairs_map(s0).insert(s.last().0@, s.last().1));
        assert forall|uri: Seq<char>| #[trigger]
            pairs_map(s).contains_key(uri) implies exists|i: int|
            0 <= i < s.len() && (#[trigger] s[i]).0@ == uri by {
            if uri == s.last().0@ {
                assert((s[s.len() - 1]).0@ == uri);
            } else {
                assert(pairs_map(s0).contains_key(uri));
                let k = choose|i: int| 0 <= i < s0.len() && (#[trigger] s0[i]).0@ == uri;
                assert(s0[k] == s[k]);
                assert((s[k]).0@ == uri);
            }
        }
        assert forall|uri: Seq<char>|
            (exists|i: int| 0 <= i < s.len() && (#[trigger] s[i]).0@ == uri) implies #[trigger]
            pairs_map(s).contains_key(uri) by {
            let k = choose|i: int| 0 <= i < s.len() && (#[trigger] s[i]).0@ == uri;
            if k < s.len() - 1 {
                assert((s0[k]).0@ == uri);
            }
        }
        assert forall|i: int|
            0 <= i < s.len() && (forall|j: int|
                i < j < s.len() ==> (#[trigger] s[j]).0@ != s[i].0@) implies pairs_map(
            s,
        ).contains_key((#[trigger] s[i]).0@) && pairs_map(s)[s[i].0@] == s[i].1 by {
            if i == s.len() - 1 {
            } else {
                assert((s0[i]).0@ == s[i].0@);
                assert(forall|j: int| i < j < s0.len() ==> (#[trigger] s0[j]).0@ != s0[i].0@);
                assert(s[i].0@ != s.last().0@);
            }
        }
    }
}

/// With distinct URIs, the map has one key per pair.
proof fn lemma_pairs_map_wf_len(s: Seq<(String, u16)>)
    requires
        pairs_distinct(s),
    ensures
        pairs_map(s).dom().len() == s.len(),
        pairs_map(s).dom().finite(),
    decreases s,
{
    if s.len() > 0 {
        lemma_pairs_map_wf_len(s.drop_last());
        lemma_pairs_map_membership(s.drop_last());
        assert(!pairs_map(s.drop_last()).contains_key(s.last().0@));
    }
}

/// Updating the index bound at one position updates the map, provided no
/// later pair binds the same URI.
proof fn lemma_pairs_map_update(s: Seq<(String, u16)>, i: int, uri: Seq<char>, index: u16)
    requires
        0 <= i < s.len(),
        s[i].0@ == uri,
        forall|j: int| i < j < s.len() ==> (#[trigger] s[j]).0@ != uri,
    ensures
        pairs_map(s.update(i, (s[i].0, index))) == pairs_map(s).insert(uri, index),
    decreases s,
{
    let t = s.update(i, (s[i].0, index));
    if s.len() > 0 {
        if i == s.len() - 1 {
            assert(t.drop_last() =~= s.drop_last());
            assert(t.last() == (s[i].0, index));
            assert(pairs_map(t) =~= pairs_map(s).insert(uri, index));
        } else {
            lemma_pairs_map_update(s.drop_last(), i, uri, index);
            assert(t.drop_last() =~= s.drop_last().update(i, (s[i].0, index)));
            assert(t.last() == s.last());
            assert(pairs_map(t) =~= pairs_map(s).insert(uri, index));
        }
    }
}

/// The URI that one namespace-array member binds: the carried string, or the
/// text the protocol library renders for a null string.
pub open spec fn spec_member_uri(m: VariantView) -> Seq<char> {
    match m {
        VariantView::Text(Some(s)) => s,
        VariantView::Text(None) => "[null]"@,
        _ => Seq::empty(),
    }
}

/// The URI-to-index map described by the first `n` members of the namespace
/// array: each URI maps to its position, later occurrences winning.
pub open spec fn spec_uri_map(members: Seq<VariantView>, n: int) -> Map<Seq<char>, u16>
    decreases n,
{
    if n <= 0 {
        Map::empty()
    } else {
        spec_uri_map(members, n - 1).insert(spec_member_uri(members[n - 1]), (n - 1) as u16)
    }
}

/// What namespace resolution returns for each possible read reply.
pub open spec fn spec_namespaces_from_read(reply: Result<Seq<DataValueView>, ServiceError>) -> Result<
    Map<Seq<char>, u16>,
    NamespacesError,
> {
    match reply {
        Err(ServiceError::LockTimeout) => Err(NamespacesError::LockTimeout),
        Err(ServiceError::Status(code)) => Err(NamespacesError::Read(code)),
        Ok(values) => if values.len() == 0 {
            Err(NamespacesError::MissingReadResult)
        } else {
            match values[0].value {
                None => Err(NamespacesError::MissingValue(values[0].status)),
                Some(VariantView::Array { values: members, dimensions: _ }) => if members.len()
                    == 0 {
                    Err(NamespacesError::EmptyNamespaceArray)
                } else if members.len() > 0x1_0000 {
                    Err(NamespacesError::TooManyNamespaces)
                } else if exists|j: int| 0 <= j < members.len() && !(#[trigger] members[j] is Text) {
                    Err(NamespacesError::BadMemberType)
                } else {
                    Ok(spec_uri_map(members, members.len() as int))
                },
                Some(_) => Err(NamespacesError::NotAnArray),
            }
        },
    }
}

/// Mathematical value of a read reply.
pub open spec fn reply_view(reply: Result<Vec<DataValue>, ServiceError>) -> Result<
    Seq<DataValueView>,
    ServiceError,
> {
    match reply {
        Ok(values) => Ok(data_values_view(values@)),
        Err(e) => Err(e),
    }
}

/// Mathematical value of a resolution outcome.
pub open spec fn resolution_view(r: Result<Namespaces, NamespacesError>) -> Result<
    Map<Seq<char>, u16>,
    NamespacesError,
> {
    match r {
        Ok(ns) => Ok(ns@),
        Err(e) => Err(e),
    }
}

/// Turns one read reply into the namespace map, exactly as
/// [`spec_namespaces_from_read`] describes: each namespace URI string maps to
/// its ordinal position in the array, and a missing result, missing value,
/// non-array or empty value or non-string member is rejected.
#[verifier::loop_isolation(false)]
pub fn namespaces_from_read(reply: Result<Vec<DataValue>, ServiceError>) -> (r: Result<
    Namespaces,
    NamespacesError,
>)
    ensures
        r matches Ok(ns) ==> ns.wf(),
        resolution_view(r) == spec_namespaces_from_read(reply_view(reply)),
{
    match reply {
        Err(ServiceError::LockTimeout) => Err(NamespacesError::LockTimeout),
        Err(ServiceError::Status(code)) => Err(NamespacesError::Read(code)),
        Ok(values) => {
            proof {
                lemma_data_values_view_index(values@);
            }
            if values.len() == 0 {
                return Err(NamespacesError::MissingReadResult);
            }
            match &values[0].value {
                None => Err(NamespacesError::MissingValue(values[0].status)),
                Some(Variant::Array(arr)) => {
                    let ghost members = crate::variant::variants_view(arr.values@);
                    proof {
                        crate::variant::lemma_variants_view_index(arr.values@);
                    }
                    if arr.values.len() == 0 {
                        return Err(NamespacesError::EmptyNamespaceArray);
                    }
                    if arr.values.len() > 0x1_0000 {
                        return Err(NamespacesError::TooManyNamespaces);
                    }
                    let mut namespaces = Namespaces::new();
                    let mut i: usize = 0;
                    while i < arr.values.len()
                        invariant
                            i <= arr.values@.len(),
                            namespaces.wf(),
                            namespaces@ == spec_uri_map(members, i as int),
                            forall|j: int| 0 <= j < i ==> #[trigger] members[j] is Text,
                        decreases arr.values@.len() - i,
                    {
                        match &arr.values[i] {
                            Variant::Text(member) => {
                                let uri = match member {
                                    Some(s) => s.clone(),
                                    None => String::from_str("[null]"),
                                };
                                namespaces.insert(uri, i as u16);
                            },
                            _ => {
                                proof {
                                    assert(members[i as int] == crate::variant::variants_view(
                                        arr.values@,
                                    )[i as int]);
                                    assert(!(members[i as int] is Text));
                                }
                                return Err(NamespacesError::BadMemberType);
                            },
                        }
                        i += 1;
                    }
                    Ok(namespaces)
                },
                Some(_) => Err(NamespacesError::NotAnArray),
            }
        },
    }
}

/// Resolves the server's namespaces over the given session: reads the
/// namespace-array variable and maps each URI to its position. The reply
/// decides the outcome; [`spec_namespaces_from_read`] says which outcome
/// each reply produces.
pub fn get_namespaces<T: AttributeService>(session: &T) -> (r: Result<Namespaces, NamespacesError>)
    ensures
        r matches Ok(ns) ==> ns.wf(),
        exists|reply: Result<Seq<DataValueView>, ServiceError>|
            resolution_view(r) == #[trigger] spec_namespaces_from_read(reply),
{
    let reply = session.read_namespace_array();
    let ghost witness = reply_view(reply);
    let r = namespaces_from_read(reply);
    proof {
        assert(resolution_view(r) == spec_namespaces_from_read(witness));
    }
    r
}

} // verus!
