use vstd::prelude::*;

use serde_json::Value;

use crate::error::{Fault, LoadError};
use crate::json::{json_member, json_object, json_parse, member, object_entries, parse_json};
use crate::tensor::{
    decode_spec, encode_spec, law_descriptor_round_trip, read_entry, Descriptor, DescriptorModel,
    Tensor, TensorModel,
};

verus! {

/// A decoded weight file: the backing buffer it owns, the header's metadata
/// block, and the validated tensors in header order. A tensor refers to its
/// bytes by range; [`Container::bytes`] lends them out.
pub struct Container {
    data: Vec<u8>,
    metadata: Option<Value>,
    tensors: Vec<Tensor>,
}

pub ghost struct ContainerModel {
    pub data: Seq<u8>,
    pub tensors: Seq<TensorModel>,
}

/// No two of the names are the same.
pub open spec fn names_distinct(names: Seq<Seq<char>>) -> bool {
    forall|i: int, j: int| 0 <= i < j < names.len() ==> names[i] != names[j]
}

pub open spec fn entry_names(entries: Seq<(Seq<char>, Option<DescriptorModel>)>) -> Seq<Seq<char>> {
    entries.map_values(|e: (Seq<char>, Option<DescriptorModel>)| e.0)
}

pub open spec fn tensor_names(ts: Seq<TensorModel>) -> Seq<Seq<char>> {
    ts.map_values(|t: TensorModel| t.name)
}

pub open spec fn entries_view(entries: Seq<(String, Descriptor)>) -> Seq<
    (Seq<char>, Option<DescriptorModel>),
> {
    entries.map_values(|e: (String, Descriptor)| (e.0@, e.1@))
}

/// Decodes every entry in order against a buffer of `total_len` bytes; the
/// first entry that fails gives the error.
pub open spec fn decode_all(entries: Seq<(Seq<char>, Option<DescriptorModel>)>, total_len: nat) -> Result<
    Seq<TensorModel>,
    Fault,
>
    decreases entries.len(),
{
    if entries.len() == 0 {
        Ok(Seq::empty())
    } else {
        match decode_all(entries.drop_last(), total_len) {
            Err(e) => Err(e),
            Ok(ts) => match decode_spec(entries.last().0, entries.last().1, total_len) {
                Err(e) => Err(e),
                Ok(t) => Ok(ts.push(t)),
            },
        }
    }
}

impl ContainerModel {
    /// Every tensor lies within the buffer, is consistent, and has a name of
    /// its own.
    pub open spec fn wf(self) -> bool {
        &&& forall|i: int| 0 <= i < self.tensors.len() ==> #[trigger] self.tensors[i].wf(self.data.len())
        &&& names_distinct(tensor_names(self.tensors))
    }
}

impl Container {
    #[verifier::type_invariant]
    spec fn inv(&self) -> bool {
        self@.wf()
    }
}

impl View for Container {
    type V = ContainerModel;

    closed spec fn view(&self) -> ContainerModel {
        ContainerModel { data: self.data@, tensors: self.tensors@.map_values(|t: Tensor| t@) }
    }
}

pub open spec fn container_result(r: Result<Container, LoadError>) -> Result<ContainerModel, Fault> {
    match r {
        Ok(c) => Ok(c@),
        Err(e) => Err(e@),
    }
}

/// What decoding succeeds with: the tensors line up with the entries, each
/// named after its entry and lying within the buffer.
pub proof fn law_decode_all_ok(entries: Seq<(Seq<char>, Option<DescriptorModel>)>, total_len: nat)
    requires
        decode_all(entries, total_len) is Ok,
    ensures
        ({
            let ts = decode_all(entries, total_len)->Ok_0;
            &&& ts.len() == entries.len()
            &&& forall|i: int|
                0 <= i < ts.len() ==> {
                    &&& #[trigger] ts[i].wf(total_len)
                    &&& ts[i].name == entries[i].0
                    &&& decode_spec(entries[i].0, entries[i].1, total_len) == Ok::<TensorModel, Fault>(ts[i])
                }
        }),
    decreases entries.len(),
{
    if entries.len() > 0 {
        let prefix = entries.drop_last();
        law_decode_all_ok(prefix, total_len);
        let last = entries.last();
        crate::tensor::law_decoded_size(last.0, last.1, total_len);
        let ts = decode_all(entries, total_len)->Ok_0;
        let before = decode_all(prefix, total_len)->Ok_0;
        assert forall|i: int| 0 <= i < ts.len() - 1 implies ts[i] == before[i] && entries[i] == prefix[i] by {}
    }
}

/// The container that [`Container::from_descriptors`] builds from `entries`
/// over the buffer `data`, or its error.
pub open spec fn from_descriptors_spec(
    entries: Seq<(Seq<char>, Option<DescriptorModel>)>,
    data: Seq<u8>,
) -> Result<ContainerModel, Fault> {
    match decode_all(entries, data.len()) {
        Ok(ts) => Ok(ContainerModel { data, tensors: ts }),
        Err(e) => Err(e),
    }
}

/// The bytes of tensor `i` of a container.
pub open spec fn tensor_bytes(c: ContainerModel, i: int) -> Seq<u8> {
    c.data.subrange(c.tensors[i].start as int, c.tensors[i].end as int)
}

/// Decoding the same entries over the same bytes twice gives containers whose
/// tensors are equal in name, dtype, shape and bytes, or the same error twice.
pub proof fn law_decode_repeatable(
    entries: Seq<(Seq<char>, Option<DescriptorModel>)>,
    data: Seq<u8>,
    r1: Result<ContainerModel, Fault>,
    r2: Result<ContainerModel, Fault>,
)
    requires
        r1 == from_descriptors_spec(entries, data),
        r2 == from_descriptors_spec(entries, data),
    ensures
        r1 is Ok <==> r2 is Ok,
        r1 is Err ==> r1 == r2,
        r1 is Ok ==> {
            let (c1, c2) = (r1->Ok_0, r2->Ok_0);
            &&& c1.tensors.len() == c2.tensors.len()
            &&& forall|i: int|
                0 <= i < c1.tensors.len() ==> {
                    &&& #[trigger] c1.tensors[i] == c2.tensors[i]
                    &&& tensor_bytes(c1, i) == tensor_bytes(c2, i)
                }
        },
{
}

/// The header entries that describe the tensors `ts`, in order.
pub open spec fn encode_all(ts: Seq<TensorModel>) -> Seq<(Seq<char>, Option<DescriptorModel>)> {
    ts.map_values(|t: TensorModel| (t.name, Some(encode_spec(t))))
}

proof fn lemma_decode_encoded(ts: Seq<TensorModel>, total_len: nat)
    requires
        total_len <= usize::MAX,
        forall|i: int| 0 <= i < ts.len() ==> #[trigger] ts[i].wf(total_len),
    ensures
        decode_all(encode_all(ts), total_len) == Ok::<Seq<TensorModel>, Fault>(ts),
    decreases ts.len(),
{
    if ts.len() == 0 {
        assert(encode_all(ts) =~= Seq::<(Seq<char>, Option<DescriptorModel>)>::empty());
        assert(ts =~= Seq::<TensorModel>::empty());
    } else {
        let prefix = ts.drop_last();
        assert(encode_all(ts).drop_last() =~= encode_all(prefix));
        assert forall|i: int| 0 <= i < prefix.len() implies #[trigger] prefix[i].wf(total_len) by {
            assert(prefix[i] == ts[i]);
        }
        lemma_decode_encoded(prefix, total_len);
        law_descriptor_round_trip(ts.last(), total_len);
        assert(prefix.push(ts.last()) =~= ts);
    }
}

/// Writing the header entries of a decoded container and decoding them again
/// over the same buffer gives back the same container: every tensor keeps its
/// name, dtype, shape and byte range, in the same order.
pub proof fn law_header_round_trip(c: ContainerModel)
    requires
        c.wf(),
        c.data.len() <= usize::MAX,
    ensures
        names_distinct(entry_names(encode_all(c.tensors))),
        from_descriptors_spec(encode_all(c.tensors), c.data) == Ok::<ContainerModel, Fault>(c),
{
    lemma_decode_encoded(c.tensors, c.data.len());
    assert(entry_names(encode_all(c.tensors)) =~= tensor_names(c.tensors));
}

/// Header key of the free-form metadata block.
pub open spec fn metadata_key() -> Seq<char> {
    "__metadata__"@
}

/// The tensor entries among the members of a header object, in order: every
/// member but the metadata block, read as a descriptor.
pub open spec fn tensor_entries(members: Seq<(Seq<char>, Value)>) -> Seq<
    (Seq<char>, Option<DescriptorModel>),
>
    decreases members.len(),
{
    if members.len() == 0 {
        Seq::empty()
    } else {
        let rest = tensor_entries(members.drop_last());
        let (name, v) = members.last();
        if name == metadata_key() {
            rest
        } else {
            rest.push((name, read_entry(v)))
        }
    }
}

/// The outcome of decoding header text `header` over the buffer `data`.
pub open spec fn decode_header_spec(header: Seq<u8>, data: Seq<u8>) -> Result<ContainerModel, Fault> {
    match json_parse(header) {
        None => Err(Fault::MalformedHeader(None)),
        Some(root) => match json_object(root) {
            None => Err(Fault::MalformedHeader(None)),
            Some(members) => from_descriptors_spec(tensor_entries(members), data),
        },
    }
}

impl Container {
    /// Decodes a weight file from its header text and its data segment. The
    /// header must be a JSON object whose members map tensor names to
    /// descriptors, plus an optional `__metadata__` member that is kept
    /// without being read. Text that is not such an object is
    /// `MalformedHeader(None)`; otherwise the outcome is that of
    /// [`Container::from_descriptors`] on the entries read from it.
    pub fn decode(header: &[u8], data: Vec<u8>) -> (r: Result<Container, LoadError>)
        ensures
            container_result(r) == decode_header_spec(header@, data@),
            r matches Ok(c) ==> c.spec_metadata() == json_member(json_parse(header@)->Some_0, metadata_key()),
            r matches Ok(c) ==> c@.wf(),
    {
        let root = match parse_json(header) {
            Ok(v) => v,
            Err(_) => {
                return Err(LoadError::MalformedHeader(None));
            },
        };
        let members = match object_entries(&root) {
            Some(es) => es,
            None => {
                return Err(LoadError::MalformedHeader(None));
            },
        };
        let ghost mv = members@.map_values(|e: (String, Value)| (e.0@, e.1));
        let meta_name = String::from_str("__metadata__");
        let metadata = member(&root, "__metadata__");
        assert(mv.take(0) =~= Seq::<(Seq<char>, Value)>::empty());
        let mut entries: Vec<(String, Descriptor)> = Vec::new();
        let mut i: usize = 0;
        while i < members.len()
            invariant
                0 <= i <= members.len(),
                mv == members@.map_values(|e: (String, Value)| (e.0@, e.1)),
                meta_name@ == metadata_key(),
                entries_view(entries@) == tensor_entries(mv.take(i as int)),
                forall|a: int, b: int|
                    0 <= a < b < members.len() ==> (#[trigger] members@[a]).0@ != (#[trigger] members@[b]).0@,
                names_distinct(entry_names(entries_view(entries@))),
                forall|k: int|
                    0 <= k < entries.len() ==> exists|j: int|
                        0 <= j < i && (#[trigger] entries@[k]).0@ == (#[trigger] members@[j]).0@,
            decreases members.len() - i,
        {
            if members[i].0 != meta_name {
                let d = Descriptor::from_json(&members[i].1);
                let name = members[i].0.clone();
                let ghost old_entries = entries@;
                entries.push((name, d));
                assert(entries_view(entries@) =~= entries_view(old_entries).push((mv[i as int].0, read_entry(mv[i as int].1))));
                proof {
                    let names = entry_names(entries_view(entries@));
                    assert forall|a: int, b: int| 0 <= a < b < names.len() implies names[a] != names[b] by {
                        if b == old_entries.len() {
                            assert(entries@[a] == old_entries[a]);
                            let j = choose|j: int| 0 <= j < i && entries@[a].0@ == members@[j].0@;
                            assert(members@[j].0@ != members@[i as int].0@);
                        } else {
                            assert(entries@[a] == old_entries[a]);
                            assert(entries@[b] == old_entries[b]);
                            assert(entry_names(entries_view(old_entries))[a] != entry_names(entries_view(old_entries))[b]);
                        }
                    }
                    assert forall|k: int| 0 <= k < entries.len() implies exists|j: int|
                        0 <= j < i + 1 && (#[trigger] entries@[k]).0@ == (#[trigger] members@[j]).0@ by {
                        if k == old_entries.len() {
                            assert(entries@[k].0@ == members@[i as int].0@);
                        } else {
                            assert(entries@[k] == old_entries[k]);
                        }
                    }
                }
            }
            assert(mv.take(i + 1).drop_last() =~= mv.take(i as int));
            assert(mv.take(i + 1).last() == mv[i as int]);
            i = i + 1;
        }
        assert(mv.take(i as int) =~= mv);
        let ghost ev = entries_view(entries@);
        let r = Container::from_descriptors(entries, metadata, data);
        assert(names_distinct(entry_names(ev)) && container_result(r) == from_descriptors_spec(ev, data@));
        r
    }

    /// The header entries that describe this container's tensors, in order.
    pub fn header_entries(&self) -> (r: Vec<(String, Descriptor)>)
        ensures
            entries_view(r@) == encode_all(self@.tensors),
    {
        let mut r: Vec<(String, Descriptor)> = Vec::new();
        let mut i: usize = 0;
        while i < self.tensors.len()
            invariant
                0 <= i <= self.tensors.len(),
                entries_view(r@) =~= encode_all(self@.tensors.take(i as int)),
            decreases self.tensors.len() - i,
        {
            let t = &self.tensors[i];
            assert(self@.tensors[i as int] == t@);
            let ghost before = r@;
            let entry = (t.name().clone(), t.descriptor());
            assert(entry.0@ == t@.name);
            r.push(entry);
            assert(entries_view(r@) =~= entries_view(before).push((t@.name, Some(encode_spec(t@)))));
            i = i + 1;
            assert(self@.tensors.take(i as int) =~= self@.tensors.take(i - 1).push(t@));
            assert(entries_view(r@) =~= encode_all(self@.tensors.take(i as int)));
        }
        assert(self@.tensors.take(i as int) =~= self@.tensors);
        r
    }

    /// The whole backing buffer.
    pub fn data(&self) -> (r: &Vec<u8>)
        ensures
            r@ == self@.data,
    {
        &self.data
    }

    /// The header's metadata block, if it had one.
    pub closed spec fn spec_metadata(&self) -> Option<Value> {
        self.metadata
    }

    /// The header's metadata block, if it had one.
    pub fn metadata(&self) -> (r: &Option<Value>)
        ensures
            *r == self.spec_metadata(),
    {
        &self.metadata
    }

    /// The tensors, in header order.
    pub fn tensors(&self) -> (r: &Vec<Tensor>)
        ensures
            r@.map_values(|t: Tensor| t@) == self@.tensors,
    {
        &self.tensors
    }

    /// Index of the tensor called `name`, if there is one.
    pub fn find(&self, name: &String) -> (r: Option<usize>)
        ensures
            self@.wf(),
            r matches Some(i) ==> i < self@.tensors.len() && self@.tensors[i as int].name == name@,
            r is None ==> forall|i: int| 0 <= i < self@.tensors.len() ==> self@.tensors[i].name != name@,
    {
        proof {
            use_type_invariant(self);
        }
        let mut i: usize = 0;
        while i < self.tensors.len()
            invariant
                0 <= i <= self.tensors.len(),
                self@.wf(),
                forall|k: int| 0 <= k < i ==> (#[trigger] self.tensors@[k])@.name != name@,
            decreases self.tensors.len() - i,
        {
            assert(self@.tensors[i as int] == self.tensors@[i as int]@);
            if self.tensors[i].name().eq(name) {
                return Some(i);
            }
            i = i + 1;
        }
        assert forall|i: int| 0 <= i < self@.tensors.len() implies self@.tensors[i].name != name@ by {
            assert(self@.tensors[i] == self.tensors@[i]@);
        }
        None
    }

    /// The bytes of tensor `t`, lent from the container's buffer without a
    /// copy.
    pub fn bytes(&self, t: &Tensor) -> (r: &[u8])
        requires
            t@.end <= self@.data.len(),
        ensures
            r@ == self@.data.subrange(t@.start as int, t@.end as int),
    {
        vstd::slice::slice_subrange(self.data.as_slice(), t.start(), t.end())
    }
    /// Builds a container from header entries that have distinct names, in
    /// header order. All or nothing: the first entry that fails to decode
    /// gives the error and no container is made.
    pub fn from_descriptors(entries: Vec<(String, Descriptor)>, metadata: Option<Value>, data: Vec<u8>) -> (r: Result<Container, LoadError>)
        requires
            names_distinct(entry_names(entries_view(entries@))),
        ensures
            container_result(r) == (match decode_all(entries_view(entries@), data@.len()) {
                Ok(ts) => Ok(ContainerModel { data: data@, tensors: ts }),
                Err(e) => Err(e),
            }),
            r matches Ok(c) ==> c@.wf() && c.spec_metadata() == metadata,
    {
        let ghost ev = entries_view(entries@);
        let total_len = data.len();
        let mut tensors: Vec<Tensor> = Vec::new();
        let mut i: usize = 0;
        assert(ev.take(0) =~= Seq::<(Seq<char>, Option<DescriptorModel>)>::empty());
        assert(tensors@.map_values(|t: Tensor| t@) =~= Seq::<TensorModel>::empty());
        while i < entries.len()
            invariant
                0 <= i <= entries.len(),
                total_len == data@.len(),
                ev == entries_view(entries@),
                decode_all(ev.take(i as int), total_len as nat) == Ok::<Seq<TensorModel>, Fault>(
                    tensors@.map_values(|t: Tensor| t@),
                ),
            decreases entries.len() - i,
        {
            assert(ev.take(i + 1).drop_last() == ev.take(i as int));
            let name = entries[i].0.clone();
            match Tensor::from_descriptor(name, &entries[i].1, total_len) {
                Ok(t) => {
                    tensors.push(t);
                },
                Err(e) => {
                    proof {
                        lemma_decode_all_err_extends(ev, i as int + 1, total_len as nat);
                    }
                    assert(ev.take(ev.len() as int) == ev);
                    return Err(e);
                },
            }
            i = i + 1;
            assert(tensors@.map_values(|t: Tensor| t@) =~= decode_all(ev.take(i as int), total_len as nat)->Ok_0);
        }
        assert(ev.take(ev.len() as int) == ev);
        proof {
            law_decode_all_ok(ev, total_len as nat);
            let ts = tensors@.map_values(|t: Tensor| t@);
            assert(ts.len() == ev.len());
            assert forall|k: int| 0 <= k < ts.len() implies tensor_names(ts)[k] == entry_names(ev)[k] by {
                assert(ts[k].wf(total_len as nat));
            }
            assert(tensor_names(ts) =~= entry_names(ev));
        }
        let c = Container { data, metadata, tensors };
        Ok(c)
    }
}

/// Once a prefix of the entries fails, the whole sequence fails the same way.
proof fn lemma_decode_all_err_extends(entries: Seq<(Seq<char>, Option<DescriptorModel>)>, k: int, total_len: nat)
    requires
        0 <= k <= entries.len(),
        decode_all(entries.take(k), total_len) is Err,
    ensures
        decode_all(entries, total_len) == decode_all(entries.take(k), total_len),
    decreases entries.len() - k,
{
    if k < entries.len() {
        assert(entries.take(k + 1).drop_last() == entries.take(k));
        lemma_decode_all_err_extends(entries, k + 1, total_len);
    } else {
        assert(entries.take(k) == entries);
    }
}

} // verus!
