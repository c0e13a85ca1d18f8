//! The string metadata of a file, and the comparison of two files' metadata.

use vstd::prelude::*;
use crate::InspectorError;
use crate::text::same_text;
use crate::header::{header_fits, header_within_buffer};
use crate::network::{
    algo_view, args_from, flag_arg, json_kind, members_of, members_valid, module_spec, network_module_of,
    network_type_of, network_type_spec, parse_network_args, ArgMembers, NetworkArgs,
    NetworkModule, NetworkType, WeightDecomposition,
};

verus! {

/// The value under `k` in a list of named values: the first one of that name.
pub open spec fn find_value<V>(items: Seq<(String, V)>, k: Seq<char>) -> Option<V>
    decreases items.len(),
{
    if items.len() == 0 {
        None
    } else if items[0].0@ == k {
        Some(items[0].1)
    } else {
        find_value(items.drop_first(), k)
    }
}

/// Each name occurs once.
pub open spec fn unique_names<V>(s: Seq<(String, V)>) -> bool {
    forall|i: int, j: int| 0 <= i < s.len() && 0 <= j < s.len() && i != j ==> s[i].0@ != s[j].0@
}

/// Values under string names, each name once, in the order they were given.
#[derive(Debug)]
pub struct KeyedList<V> {
    items: Vec<(String, V)>,
}

impl<V> KeyedList<V> {
    /// No name occurs twice.
    #[verifier::type_invariant]
    closed spec fn names_once(self) -> bool {
        unique_names(self.items@)
    }

    /// The named values, in order.
    pub closed spec fn entries(&self) -> Seq<(String, V)> {
        self.items@
    }

    /// The value under `k`.
    pub open spec fn lookup(&self, k: Seq<char>) -> Option<V> {
        find_value(self.entries(), k)
    }

    /// A list holding `items` in order; `None` when a name occurs twice.
    pub fn from_pairs(items: Vec<(String, V)>) -> (r: Option<Self>)
        ensures
            r is Some <==> unique_names(items@),
            r matches Some(l) ==> l.entries() == items@,
    {
        let n = items.len();
        let mut i: usize = 0;
        while i < n
            invariant
                n == items@.len(),
                i <= n,
                forall|x: int, y: int| 0 <= x < i && 0 <= y < n && x != y ==> items@[x].0@ != items@[y].0@,
            decreases n - i,
        {
            let mut j: usize = 0;
            while j < n
                invariant
                    n == items@.len(),
                    i < n,
                    j <= n,
                    forall|x: int, y: int| 0 <= x < i && 0 <= y < n && x != y ==> items@[x].0@ != items@[y].0@,
                    forall|y: int| 0 <= y < j && y != i ==> items@[i as int].0@ != items@[y].0@,
                decreases n - j,
            {
                if j != i && same_text(items[i].0.as_str(), items[j].0.as_str()) {
                    return None;
                }
                j = j + 1;
            }
            i = i + 1;
        }
        Some(KeyedList { items })
    }

    /// The named values, in order.
    pub fn items(&self) -> (r: &Vec<(String, V)>)
        ensures
            r@ == self.entries(),
    {
        &self.items
    }

    /// The value under `k`, if one is there.
    pub fn get(&self, k: &str) -> (r: Option<&V>)
        ensures
            r matches Some(v) ==> self.lookup(k@) == Some(*v),
            r is None ==> self.lookup(k@) is None,
    {
        let n = self.items.len();
        let mut i: usize = 0;
        assert(self.items@.subrange(0, n as int) =~= self.items@);
        while i < n
            invariant
                n == self.items@.len(),
                i <= n,
                find_value(self.items@, k@) == find_value(self.items@.subrange(i as int, n as int), k@),
            decreases n - i,
        {
            let ghost rest = self.items@.subrange(i as int, n as int);
            assert(rest.drop_first() =~= self.items@.subrange(i + 1, n as int));
            if self.items[i].0.as_str().unicode_len() == k.unicode_len() && same_text(self.items[i].0.as_str(), k) {
                return Some(&self.items[i].1);
            }
            i = i + 1;
        }
        assert(self.items@.subrange(n as int, n as int) =~= Seq::<(String, V)>::empty());
        None
    }

    /// How many values the list holds.
    pub fn len(&self) -> (r: usize)
        ensures
            r == self.entries().len(),
    {
        self.items.len()
    }

    /// Whether the list holds no value.
    pub fn is_empty(&self) -> (r: bool)
        ensures
            r == (self.entries().len() == 0),
    {
        self.items.len() == 0
    }
}

/// The metadata of a file: string values under string names, if the file has any.
#[derive(Debug)]
pub struct Metadata {
    pub metadata: Option<KeyedList<String>>,
}

/// The string metadata of a tensor file's header: `None` for bytes whose header cannot be
/// read, `Some(None)` for a header without metadata.
pub uninterp spec fn file_metadata(buffer: Seq<u8>) -> Option<Option<Map<Seq<char>, Seq<char>>>>;

/// Relies on safetensors::SafeTensors::read_metadata: it fails exactly on bytes whose header
/// cannot be read, and gives the header's metadata map, each name once, in no particular order.
/// It adds the end of the last data range to the header size unchecked, so only buffers whose
/// ranges end within the buffer are passed.
#[verifier::external_body]
fn read_header_metadata(buffer: &[u8]) -> (r: Result<Option<Vec<(String, String)>>, safetensors::SafeTensorError>)
    requires
        header_fits(buffer@),
    ensures
        r is Ok <==> file_metadata(buffer@) is Some,
        r matches Ok(None) ==> file_metadata(buffer@) == Some(None::<Map<Seq<char>, Seq<char>>>),
        r matches Ok(Some(v)) ==> file_metadata(buffer@) is Some && file_metadata(buffer@)->0 is Some
            && unique_names(v@) && lists_map(v@, file_metadata(buffer@)->0->0),
{
    safetensors::SafeTensors::read_metadata(buffer).map(|(_, m)| m.metadata().clone().map(|h| h.into_iter().collect()))
}

/// The entries are those of the map `m`.
pub open spec fn lists_map(v: Seq<(String, String)>, m: Map<Seq<char>, Seq<char>>) -> bool {
    &&& forall|i: int| 0 <= i < v.len() ==> m.contains_key(#[trigger] v[i].0@) && m[v[i].0@] == v[i].1@
    &&& forall|k: Seq<char>| #[trigger] m.contains_key(k) ==> exists|i: int| 0 <= i < v.len() && v[i].0@ == k
}

/// What reading the network arguments written as `text` gives: `Metadata` for text that is
/// not JSON, `InvalidNetworkArg` for JSON that is not an object, and otherwise what
/// `from_members` makes of the object's members.
pub open spec fn args_outcome(text: Seq<char>, r: Result<Option<NetworkArgs>, InspectorError>) -> bool {
    &&& json_kind(text) == 0 ==> r is Err && r->Err_0 is Metadata
    &&& json_kind(text) == 1 ==> r is Err && r->Err_0 is InvalidNetworkArg
    &&& json_kind(text) == 2 ==> exists|m: ArgMembers| #[trigger] members_of(m, text) && (members_valid(m) <==> r is Ok)
        && (r is Ok ==> r->Ok_0 is Some && args_from(r->Ok_0->0, m)) && (r is Err ==> r->Err_0 is InvalidNetworkArg)
}

/// What a value read from network arguments written as `text` is: `Metadata` for text that
/// is not JSON, `InvalidNetworkArg` for JSON that is not an object or whose members are
/// malformed, and otherwise `f` of the object's members.
pub open spec fn args_derived<T>(text: Seq<char>, r: Result<Option<T>, InspectorError>, f: spec_fn(ArgMembers) -> T) -> bool {
    &&& json_kind(text) == 0 ==> r is Err && r->Err_0 is Metadata
    &&& json_kind(text) == 1 ==> r is Err && r->Err_0 is InvalidNetworkArg
    &&& json_kind(text) == 2 ==> exists|m: ArgMembers| #[trigger] members_of(m, text) && (!members_valid(m)
        ==> r is Err && r->Err_0 is InvalidNetworkArg) && (members_valid(m) ==> r == Ok::<Option<T>, InspectorError>(Some(f(m))))
}

/// What the network type of a file of the decomposition library's module is, with network
/// arguments written as `args`: none without arguments; an argument error when they are
/// malformed; else the type that their `algo` names (plain low-rank without one), or
/// `UnrecognizedAlgorithm` for a name this library does not know.
pub open spec fn lycoris_outcome(args: Option<String>, r: Result<Option<NetworkType>, InspectorError>) -> bool {
    match args {
        None => r == Ok::<Option<NetworkType>, InspectorError>(None),
        Some(v) => {
            &&& json_kind(v@) == 0 ==> r is Err && r->Err_0 is Metadata
            &&& json_kind(v@) == 1 ==> r is Err && r->Err_0 is InvalidNetworkArg
            &&& json_kind(v@) == 2 ==> exists|m: ArgMembers| #[trigger] members_of(m, v@) && (!members_valid(m)
                ==> r is Err && r->Err_0 is InvalidNetworkArg) && (members_valid(m) ==> match network_type_spec(
                Some(NetworkModule::Lycoris),
                Some(algo_view(m)),
            ) {
                Ok(t) => r == Ok::<Option<NetworkType>, InspectorError>(t),
                Err(a) => r is Err && r->Err_0 is UnrecognizedAlgorithm && r->Err_0->UnrecognizedAlgorithm_0@ == a,
            })
        },
    }
}

/// The metadata entry that names the training module.
pub open spec fn module_key() -> Seq<char> {
    "ss_network_module"@
}

/// The metadata entry that holds the network arguments.
pub open spec fn args_key() -> Seq<char> {
    "ss_network_args"@
}

impl Metadata {
    /// The value under `k`, when there is metadata and it has one.
    pub open spec fn value(&self, k: Seq<char>) -> Option<String> {
        match self.metadata {
            Some(l) => l.lookup(k),
            None => None,
        }
    }

    /// The training module that the metadata names, if it is one this library knows.
    pub open spec fn module_view(&self) -> Option<NetworkModule> {
        match self.value(module_key()) {
            Some(v) => module_spec(v@),
            None => None,
        }
    }

    /// The metadata of the tensor file in `buffer`: an error exactly when its header cannot
    /// be read, else the header's metadata map, if it has one.
    pub fn new_from_buffer(buffer: &[u8]) -> (r: Result<Metadata, InspectorError>)
        ensures
            r matches Err(e) ==> e is SafeTensor || e is MalformedHeader,
            r is Ok ==> file_metadata(buffer@) is Some,
            header_fits(buffer@) ==> (r is Ok <==> file_metadata(buffer@) is Some),
            !header_fits(buffer@) ==> r matches Err(InspectorError::MalformedHeader),
            r matches Ok(m) ==> match file_metadata(buffer@)->0 {
                None => m.metadata is None,
                Some(map) => m.metadata matches Some(l) && lists_map(l.entries(), map),
            },
    {
        if !header_within_buffer(buffer) {
            return Err(InspectorError::MalformedHeader);
        }
        match read_header_metadata(buffer) {
            Ok(Some(items)) => Ok(Metadata { metadata: Some(KeyedList { items }) }),
            Ok(None) => Ok(Metadata { metadata: None }),
            Err(e) => Err(InspectorError::SafeTensor(e)),
        }
    }

    /// How many entries the metadata has; none when there is no metadata.
    pub fn metadata_size(&self) -> (r: usize)
        ensures
            r == match self.metadata {
                Some(l) => l.entries().len(),
                None => 0,
            },
    {
        match &self.metadata {
            Some(l) => l.len(),
            None => 0,
        }
    }

    /// The value under `k`.
    pub fn get(&self, k: &str) -> (r: Option<&String>)
        ensures
            r matches Some(v) ==> self.value(k@) == Some(*v),
            r is None ==> self.value(k@) is None,
    {
        match &self.metadata {
            Some(l) => l.get(k),
            None => None,
        }
    }

    /// The training module that the metadata names, if it is one this library knows.
    pub fn network_module(&self) -> (r: Option<NetworkModule>)
        ensures
            r == self.module_view(),
    {
        proof {
            reveal_strlit("ss_network_module");
        }
        match self.get("ss_network_module") {
            Some(v) => network_module_of(v.as_str()),
            None => None,
        }
    }

    /// The network arguments, when the metadata has them: `Metadata` or `InvalidNetworkArg`
    /// when they are malformed.
    pub fn network_args(&self) -> (r: Result<Option<NetworkArgs>, InspectorError>)
        ensures
            self.value(args_key()) is None ==> r matches Ok(None),
            self.value(args_key()) is Some ==> r !is Ok || r matches Ok(Some(_)),
            r matches Err(e) ==> e is Metadata || e is InvalidNetworkArg,
            self.value(args_key()) is Some ==> args_outcome(self.value(args_key())->0@, r),
    {
        proof {
            reveal_strlit("ss_network_args");
        }
        match self.get("ss_network_args") {
            Some(v) => match parse_network_args(v.as_str()) {
                Ok(a) => Ok(Some(a)),
                Err(e) => Err(e),
            },
            None => Ok(None),
        }
    }

    /// The network type of the file. Only the decomposition library's module reads the
    /// arguments; no module means no type.
    pub fn network_type(&self) -> (r: Result<Option<NetworkType>, InspectorError>)
        ensures
            self.module_view() is None ==> r matches Ok(None),
            self.module_view() is Some && self.module_view() != Some(NetworkModule::Lycoris) ==> r
                == Ok::<Option<NetworkType>, InspectorError>(
                network_type_spec(self.module_view(), None)->Ok_0,
            ),
            self.module_view() == Some(NetworkModule::Lycoris) ==> lycoris_outcome(self.value(args_key()), r),
    {
        let module = self.network_module();
        let args = match module {
            Some(NetworkModule::Lycoris) => self.network_args(),
            _ => Ok(None),
        };
        let args = match args {
            Ok(a) => a,
            Err(e) => {
                proof {
                    if module == Some(NetworkModule::Lycoris) && self.value(args_key()) is Some
                        && json_kind(self.value(args_key())->0@) == 2 {
                        let v = self.value(args_key())->0@;
                        let m = choose|m: ArgMembers| #[trigger] members_of(m, v) && (members_valid(m) <==> false)
                            && (true ==> e is InvalidNetworkArg);
                        assert(members_of(m, v));
                    }
                }
                return Err(e);
            },
        };
        let r = network_type_of(module, &args);
        proof {
            if module == Some(NetworkModule::Lycoris) && self.value(args_key()) is Some
                && json_kind(self.value(args_key())->0@) == 2 {
                let v = self.value(args_key())->0@;
                let m = choose|m: ArgMembers| #[trigger] members_of(m, v) && members_valid(m)
                    && args_from(args->0, m);
                assert(members_of(m, v));
            }
        }
        r
    }

    /// The weight decomposition that the arguments declare; none without arguments.
    pub fn weight_decomposition(&self) -> (r: Result<Option<WeightDecomposition>, InspectorError>)
        ensures
            self.value(args_key()) is None ==> r matches Ok(None),
            self.value(args_key()) is Some ==> args_derived(self.value(args_key())->0@, r, |m: ArgMembers|
                if flag_arg(m.dora_wd)->0 == Some(true) {
                    WeightDecomposition::DoRA
                } else {
                    WeightDecomposition::Plain
                }),
    {
        let a = self.network_args();
        proof {
            if self.value(args_key()) is Some && json_kind(self.value(args_key())->0@) == 2 {
                let v = self.value(args_key())->0@;
                let m = choose|m: ArgMembers| #[trigger] members_of(m, v) && (members_valid(m) <==> a is Ok) && (
                    a is Ok ==> a->Ok_0 is Some && args_from(a->Ok_0->0, m)) && (a is Err ==> a->Err_0 is InvalidNetworkArg);
                assert(members_of(m, v));
            }
        }
        match a? {
            Some(a) => Ok(Some(a.weight_decomposition())),
            None => Ok(None),
        }
    }

    /// Whether the arguments declare rank-stabilized scaling, under either of its names; none
    /// without arguments.
    pub fn rank_stabilized(&self) -> (r: Result<Option<bool>, InspectorError>)
        ensures
            self.value(args_key()) is None ==> r matches Ok(None),
            self.value(args_key()) is Some ==> args_derived(self.value(args_key())->0@, r, |m: ArgMembers|
                flag_arg(m.rs_lora)->0 == Some(true) || flag_arg(m.rank_stabilized)->0 == Some(true)),
    {
        let a = self.network_args();
        proof {
            if self.value(args_key()) is Some && json_kind(self.value(args_key())->0@) == 2 {
                let v = self.value(args_key())->0@;
                let m = choose|m: ArgMembers| #[trigger] members_of(m, v) && (members_valid(m) <==> a is Ok) && (
                    a is Ok ==> a->Ok_0 is Some && args_from(a->Ok_0->0, m)) && (a is Err ==> a->Err_0 is InvalidNetworkArg);
                assert(members_of(m, v));
            }
        }
        match a? {
            Some(a) => Ok(Some(a.rank_stabilized())),
            None => Ok(None),
        }
    }
}

/// A value that two files hold under one name, with different contents.
#[derive(Debug, Clone)]
pub struct DiffChanged {
    pub old: String,
    pub new: String,
}

/// What changed from one file's metadata to another's.
#[derive(Debug)]
pub struct Diff {
    pub added: KeyedList<String>,
    pub removed: KeyedList<String>,
    pub changed: KeyedList<DiffChanged>,
}

/// The entries of `s1` whose name `s2` lacks, in the order of `s1`.
pub open spec fn missing_spec(s1: Seq<(String, String)>, s2: Seq<(String, String)>) -> Seq<(String, String)>
    decreases s1.len(),
{
    if s1.len() == 0 {
        Seq::empty()
    } else {
        let rest = missing_spec(s1.drop_last(), s2);
        if find_value(s2, s1.last().0@) is None {
            rest.push(s1.last())
        } else {
            rest
        }
    }
}

/// The entries of `s1` that `s2` holds under the same name with other contents, with both values.
pub open spec fn changed_spec(s1: Seq<(String, String)>, s2: Seq<(String, String)>) -> Seq<(String, DiffChanged)>
    decreases s1.len(),
{
    if s1.len() == 0 {
        Seq::empty()
    } else {
        let rest = changed_spec(s1.drop_last(), s2);
        let e = s1.last();
        match find_value(s2, e.0@) {
            Some(v2) => if v2@ != e.1@ {
                rest.push((e.0, DiffChanged { old: e.1, new: v2 }))
            } else {
                rest
            },
            None => rest,
        }
    }
}

/// What `compare_metadata` reports: with both maps there, the names that only the second
/// has, the names that only the first has, and the names whose values differ; with only the
/// first there, all of its entries as removed; otherwise nothing.
pub open spec fn diff_spec(m1: Option<Seq<(String, String)>>, m2: Option<Seq<(String, String)>>) -> (
    Seq<(String, String)>,
    Seq<(String, String)>,
    Seq<(String, DiffChanged)>,
) {
    match (m1, m2) {
        (Some(s1), None) => (Seq::empty(), s1, Seq::empty()),
        (Some(s1), Some(s2)) => (missing_spec(s2, s1), missing_spec(s1, s2), changed_spec(s1, s2)),
        _ => (Seq::empty(), Seq::empty(), Seq::empty()),
    }
}

proof fn lemma_unique_drop_last<V>(s: Seq<(String, V)>)
    requires
        unique_names(s),
        s.len() > 0,
    ensures
        unique_names(s.drop_last()),
        forall|j: int| 0 <= j < s.len() - 1 ==> s.drop_last()[j].0@ != s.last().0@,
{
    assert forall|j: int| 0 <= j < s.len() - 1 implies s.drop_last()[j].0@ != s.last().0@ by {
        assert(s.drop_last()[j] == s[j]);
    }
}

proof fn lemma_missing_unique(s1: Seq<(String, String)>, s2: Seq<(String, String)>)
    requires
        unique_names(s1),
    ensures
        unique_names(missing_spec(s1, s2)),
        forall|i: int| 0 <= i < missing_spec(s1, s2).len() ==> exists|j: int| 0 <= j < s1.len()
            && (#[trigger] missing_spec(s1, s2)[i]).0@ == (#[trigger] s1[j]).0@,
    decreases s1.len(),
{
    if s1.len() > 0 {
        let t = s1.drop_last();
        lemma_unique_drop_last(s1);
        lemma_missing_unique(t, s2);
        let r0 = missing_spec(t, s2);
        let r = missing_spec(s1, s2);
        assert forall|i: int| 0 <= i < r0.len() implies exists|j: int| 0 <= j < s1.len() && (#[trigger] r0[i]).0@ == (#[trigger] s1[j]).0@ by {
            let j = choose|j: int| 0 <= j < t.len() && r0[i].0@ == (#[trigger] t[j]).0@;
            assert(t[j] == s1[j]);
        }
        if find_value(s2, s1.last().0@) is None {
            assert(r == r0.push(s1.last()));
            assert forall|i: int| 0 <= i < r0.len() implies (#[trigger] r0[i]).0@ != s1.last().0@ by {
                let j = choose|j: int| 0 <= j < t.len() && r0[i].0@ == (#[trigger] t[j]).0@;
            }
            assert forall|i: int| 0 <= i < r.len() implies exists|j: int| 0 <= j < s1.len() && (#[trigger] r[i]).0@ == (#[trigger] s1[j]).0@ by {
                if i == r0.len() {
                    assert(r[i] == s1[s1.len() - 1]);
                } else {
                    assert(r[i] == r0[i]);
                }
            }
            assert(unique_names(r)) by {
                assert forall|x: int, y: int| 0 <= x < r.len() && 0 <= y < r.len() && x != y implies r[x].0@ != r[y].0@ by {
                    if x == r0.len() {
                        assert(r[y] == r0[y]);
                    } else if y == r0.len() {
                        assert(r[x] == r0[x]);
                    } else {
                        assert(r[x] == r0[x]);
                        assert(r[y] == r0[y]);
                    }
                }
            }
        }
    }
}

proof fn lemma_changed_unique(s1: Seq<(String, String)>, s2: Seq<(String, String)>)
    requires
        unique_names(s1),
    ensures
        unique_names(changed_spec(s1, s2)),
        forall|i: int| 0 <= i < changed_spec(s1, s2).len() ==> exists|j: int| 0 <= j < s1.len()
            && (#[trigger] changed_spec(s1, s2)[i]).0@ == (#[trigger] s1[j]).0@,
    decreases s1.len(),
{
    if s1.len() > 0 {
        let t = s1.drop_last();
        lemma_unique_drop_last(s1);
        lemma_changed_unique(t, s2);
        let r0 = changed_spec(t, s2);
        let r = changed_spec(s1, s2);
        let e = s1.last();
        assert forall|i: int| 0 <= i < r0.len() implies exists|j: int| 0 <= j < s1.len() && (#[trigger] r0[i]).0@ == (#[trigger] s1[j]).0@ by {
            let j = choose|j: int| 0 <= j < t.len() && r0[i].0@ == (#[trigger] t[j]).0@;
            assert(t[j] == s1[j]);
        }
        if r != r0 {
            let v2 = find_value(s2, e.0@)->0;
            assert(r == r0.push((e.0, DiffChanged { old: e.1, new: v2 })));
            assert forall|i: int| 0 <= i < r0.len() implies (#[trigger] r0[i]).0@ != e.0@ by {
                let j = choose|j: int| 0 <= j < t.len() && r0[i].0@ == (#[trigger] t[j]).0@;
            }
            assert forall|i: int| 0 <= i < r.len() implies exists|j: int| 0 <= j < s1.len() && (#[trigger] r[i]).0@ == (#[trigger] s1[j]).0@ by {
                if i == r0.len() {
                    assert(r[i].0 == s1[s1.len() - 1].0);
                } else {
                    assert(r[i] == r0[i]);
                }
            }
            assert(unique_names(r)) by {
                assert forall|x: int, y: int| 0 <= x < r.len() && 0 <= y < r.len() && x != y implies r[x].0@ != r[y].0@ by {
                    if x == r0.len() {
                        assert(r[y] == r0[y]);
                    } else if y == r0.len() {
                        assert(r[x] == r0[x]);
                    } else {
                        assert(r[x] == r0[x]);
                        assert(r[y] == r0[y]);
                    }
                }
            }
        }
    }
}

proof fn lemma_find_unique<V>(s: Seq<(String, V)>, i: int)
    requires
        unique_names(s),
        0 <= i < s.len(),
    ensures
        find_value(s, s[i].0@) == Some(s[i].1),
    decreases i,
{
    if i > 0 {
        assert(s[0].0@ != s[i].0@);
        let t = s.drop_first();
        assert(t[i - 1] == s[i]);
        assert(unique_names(t)) by {
            assert forall|x: int, y: int| 0 <= x < t.len() && 0 <= y < t.len() && x != y implies t[x].0@ != t[y].0@ by {
                assert(t[x] == s[x + 1]);
                assert(t[y] == s[y + 1]);
            }
        }
        lemma_find_unique(t, i - 1);
    }
}

proof fn lemma_self_prefix(s: Seq<(String, String)>, n: int)
    requires
        unique_names(s),
        0 <= n <= s.len(),
    ensures
        missing_spec(s.subrange(0, n), s) == Seq::<(String, String)>::empty(),
        changed_spec(s.subrange(0, n), s) == Seq::<(String, DiffChanged)>::empty(),
    decreases n,
{
    if n > 0 {
        let p = s.subrange(0, n);
        assert(p.drop_last() =~= s.subrange(0, n - 1));
        assert(p.last() == s[n - 1]);
        lemma_self_prefix(s, n - 1);
        lemma_find_unique(s, n - 1);
    } else {
        assert(s.subrange(0, 0) =~= Seq::<(String, String)>::empty());
    }
}

/// Comparing metadata with itself reports no change: nothing added, removed or changed.
pub proof fn lemma_compare_self(s: Seq<(String, String)>)
    requires
        unique_names(s),
    ensures
        diff_spec(Some(s), Some(s)) == (
            Seq::<(String, String)>::empty(),
            Seq::<(String, String)>::empty(),
            Seq::<(String, DiffChanged)>::empty(),
        ),
{
    lemma_self_prefix(s, s.len() as int);
    assert(s.subrange(0, s.len() as int) =~= s);
}

/// The items of an optional list.
pub open spec fn items_of(m: Option<KeyedList<String>>) -> Option<Seq<(String, String)>> {
    match m {
        Some(l) => Some(l.entries()),
        None => None,
    }
}

fn copy_items(v: &Vec<(String, String)>) -> (r: Vec<(String, String)>)
    ensures
        r@ == v@,
{
    let mut out: Vec<(String, String)> = Vec::new();
    let mut i: usize = 0;
    while i < v.len()
        invariant
            i <= v@.len(),
            out@ == v@.subrange(0, i as int),
        decreases v.len() - i,
    {
        out.push((v[i].0.clone(), v[i].1.clone()));
        i = i + 1;
        assert(out@ =~= v@.subrange(0, i as int));
    }
    assert(v@.subrange(0, v@.len() as int) =~= v@);
    out
}

fn missing_from(s1: &KeyedList<String>, s2: &KeyedList<String>) -> (r: KeyedList<String>)
    ensures
        r.entries() == missing_spec(s1.entries(), s2.entries()),
{
    let mut out: Vec<(String, String)> = Vec::new();
    let n = s1.items.len();
    let mut i: usize = 0;
    assert(s1.items@.subrange(0, 0) =~= Seq::<(String, String)>::empty());
    while i < n
        invariant
            n == s1.items@.len(),
            i <= n,
            out@ == missing_spec(s1.items@.subrange(0, i as int), s2.items@),
        decreases n - i,
    {
        let ghost next = s1.items@.subrange(0, i + 1);
        assert(next.drop_last() =~= s1.items@.subrange(0, i as int));
        let k = &s1.items[i].0;
        if s2.get(k.as_str()).is_none() {
            let v = &s1.items[i].1;
            out.push((k.clone(), v.clone()));
        }
        i = i + 1;
    }
    assert(s1.items@.subrange(0, n as int) =~= s1.items@);
    proof {
        use_type_invariant(s1);
        lemma_missing_unique(s1.items@, s2.items@);
    }
    KeyedList { items: out }
}

fn changed_between(s1: &KeyedList<String>, s2: &KeyedList<String>) -> (r: KeyedList<DiffChanged>)
    ensures
        r.entries() == changed_spec(s1.entries(), s2.entries()),
{
    let mut out: Vec<(String, DiffChanged)> = Vec::new();
    let n = s1.items.len();
    let mut i: usize = 0;
    assert(s1.items@.subrange(0, 0) =~= Seq::<(String, String)>::empty());
    while i < n
        invariant
            n == s1.items@.len(),
            i <= n,
            out@ == changed_spec(s1.items@.subrange(0, i as int), s2.items@),
        decreases n - i,
    {
        let ghost next = s1.items@.subrange(0, i + 1);
        assert(next.drop_last() =~= s1.items@.subrange(0, i as int));
        let k = &s1.items[i].0;
        let v = &s1.items[i].1;
        match s2.get(k.as_str()) {
            Some(v2) => {
                if !same_text(v.as_str(), v2.as_str()) {
                    out.push((k.clone(), DiffChanged { old: v.clone(), new: v2.clone() }));
                }
            },
            None => {},
        }
        i = i + 1;
    }
    assert(s1.items@.subrange(0, n as int) =~= s1.items@);
    proof {
        use_type_invariant(s1);
        lemma_changed_unique(s1.items@, s2.items@);
    }
    KeyedList { items: out }
}

/// The difference between two files' metadata.
pub fn compare_metadata(m1: &Metadata, m2: &Metadata) -> (r: Diff)
    ensures
        (r.added.entries(), r.removed.entries(), r.changed.entries()) == diff_spec(
            items_of(m1.metadata),
            items_of(m2.metadata),
        ),
{
    match (&m1.metadata, &m2.metadata) {
        (Some(a), None) => {
            proof {
                use_type_invariant(a);
            }
            Diff {
            added: KeyedList { items: Vec::new() },
            removed: KeyedList { items: copy_items(&a.items) },
            changed: KeyedList { items: Vec::new() },
        }
        },
        (Some(a), Some(b)) => Diff {
            added: missing_from(b, a),
            removed: missing_from(a, b),
            changed: changed_between(a, b),
        },
        _ => Diff {
            added: KeyedList { items: Vec::new() },
            removed: KeyedList { items: Vec::new() },
            changed: KeyedList { items: Vec::new() },
        },
    }
}

} // verus!
