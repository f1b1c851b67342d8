use vstd::prelude::*;

use crate::dtype::{
    dtype_from_name, dtype_size, dtype_to_string, spec_dtype_from_name, spec_dtype_name,
    spec_dtype_size, DType,
};
use crate::error::{Fault, LoadError};
use crate::json::{json_array, json_member, json_str, json_u64, member};
use serde_json::Value;

verus! {

/// Largest number of dimensions a tensor may have.
pub const MAX_RANK: usize = 4;

/// Number of elements of a tensor of the given shape (1 for a scalar).
pub open spec fn numel(shape: Seq<usize>) -> nat
    decreases shape.len(),
{
    if shape.len() == 0 {
        1
    } else {
        numel(shape.drop_last()) * (shape.last() as nat)
    }
}

/// A tensor's declared metadata as read from one header entry, before
/// validation. A field is `None` when the entry lacks it or gives it the wrong
/// kind of value (the dtype not as text, the shape or offsets not as a list).
/// Each dimension and offset is `Some` exactly when the header gives it as a
/// non-negative integer.
pub struct Descriptor {
    pub dtype: Option<String>,
    pub shape: Option<Vec<Option<u64>>>,
    pub data_offsets: Option<Vec<Option<u64>>>,
}

pub ghost struct DescriptorModel {
    pub dtype: Seq<char>,
    pub shape: Seq<Option<u64>>,
    pub data_offsets: Seq<Option<u64>>,
}

impl View for Descriptor {
    type V = Option<DescriptorModel>;

    /// `None` for an entry that lacks one of its fields.
    open spec fn view(&self) -> Option<DescriptorModel> {
        match (self.dtype, self.shape, self.data_offsets) {
            (Some(t), Some(s), Some(o)) => Some(
                DescriptorModel { dtype: t@, shape: s@, data_offsets: o@ },
            ),
            _ => None,
        }
    }
}

/// A validated tensor: its element kind, its shape, and the byte range
/// `[start, end)` it occupies in its container's buffer.
#[derive(Debug)]
pub struct Tensor {
    name: String,
    dtype: DType,
    shape: Vec<usize>,
    start: usize,
    end: usize,
}

pub ghost struct TensorModel {
    pub name: Seq<char>,
    pub dtype: DType,
    pub shape: Seq<usize>,
    pub start: nat,
    pub end: nat,
}

impl Tensor {
    #[verifier::type_invariant]
    spec fn inv(&self) -> bool {
        &&& self.shape.len() <= MAX_RANK
        &&& self.start <= self.end
        &&& numel(self.shape@) * spec_dtype_size(self.dtype) == self.end - self.start
    }
}

impl View for Tensor {
    type V = TensorModel;

    closed spec fn view(&self) -> TensorModel {
        TensorModel {
            name: self.name@,
            dtype: self.dtype,
            shape: self.shape@,
            start: self.start as nat,
            end: self.end as nat,
        }
    }
}

impl TensorModel {
    /// The tensor is consistent and lies within a buffer of `total_len` bytes.
    pub open spec fn wf(self, total_len: nat) -> bool {
        &&& self.shape.len() <= MAX_RANK
        &&& self.start <= self.end <= total_len
        &&& numel(self.shape) * spec_dtype_size(self.dtype) == self.end - self.start
    }
}

pub open spec fn dims_valid(shape: Seq<Option<u64>>) -> bool {
    forall|i: int| 0 <= i < shape.len() ==> {
        &&& (#[trigger] shape[i]) is Some
        &&& shape[i]->Some_0 <= usize::MAX
    }
}

pub open spec fn dims_of(shape: Seq<Option<u64>>) -> Seq<usize> {
    shape.map_values(|x: Option<u64>| x->Some_0 as usize)
}

pub open spec fn offsets_valid(offsets: Seq<Option<u64>>, total_len: nat) -> bool {
    &&& offsets.len() == 2
    &&& offsets[0] is Some
    &&& offsets[1] is Some
    &&& offsets[0]->Some_0 <= offsets[1]->Some_0
    &&& offsets[1]->Some_0 <= total_len
}

/// The outcome of decoding descriptor `d` of tensor `name` against a buffer
/// of `total_len` bytes. The checks stand in a fixed order, so that the first
/// one that fails names the error.
pub open spec fn decode_spec(name: Seq<char>, d: Option<DescriptorModel>, total_len: nat) -> Result<
    TensorModel,
    Fault,
> {
    match d {
        None => Err(Fault::MalformedHeader(Some(name))),
        Some(d) => decode_fields(name, d, total_len),
    }
}

/// The checks of [`decode_spec`] on an entry that has all its fields.
pub open spec fn decode_fields(name: Seq<char>, d: DescriptorModel, total_len: nat) -> Result<
    TensorModel,
    Fault,
> {
    match spec_dtype_from_name(d.dtype) {
        None => Err(Fault::UnknownDType(name)),
        Some(dtype) => if d.shape.len() > MAX_RANK {
            Err(Fault::ShapeRankExceeded(name))
        } else if !dims_valid(d.shape) {
            Err(Fault::InvalidShapeValue(name))
        } else if !offsets_valid(d.data_offsets, total_len) {
            Err(Fault::InvalidOffsets(name))
        } else {
            let start = d.data_offsets[0]->Some_0 as nat;
            let end = d.data_offsets[1]->Some_0 as nat;
            let shape = dims_of(d.shape);
            if numel(shape) * spec_dtype_size(dtype) != end - start {
                Err(Fault::SizeMismatch(name))
            } else {
                Ok(TensorModel { name, dtype, shape, start, end })
            }
        },
    }
}

pub open spec fn tensor_result(r: Result<Tensor, LoadError>) -> Result<TensorModel, Fault> {
    match r {
        Ok(t) => Ok(t@),
        Err(e) => Err(e@),
    }
}

proof fn lemma_numel_zero(s: Seq<usize>, i: int)
    requires
        0 <= i < s.len(),
        s[i] == 0,
    ensures
        numel(s) == 0,
    decreases s.len(),
{
    let p = numel(s.drop_last());
    let l = s.last() as nat;
    if i < s.len() - 1 {
        lemma_numel_zero(s.drop_last(), i);
        assert(p * l == 0) by (nonlinear_arith)
            requires
                p == 0,
        ;
    } else {
        assert(p * l == 0) by (nonlinear_arith)
            requires
                l == 0,
        ;
    }
}

proof fn lemma_numel_prefix_le(s: Seq<usize>, k: int)
    requires
        0 <= k <= s.len(),
        forall|j: int| 0 <= j < s.len() ==> s[j] >= 1,
    ensures
        numel(s.take(k)) <= numel(s),
    decreases s.len(),
{
    if k < s.len() {
        assert(s.drop_last().take(k) == s.take(k));
        lemma_numel_prefix_le(s.drop_last(), k);
        let p = numel(s.drop_last());
        let l = s.last() as nat;
        assert(p * 1 <= p * l) by (nonlinear_arith)
            requires
                l >= 1,
        ;
    } else {
        assert(s.take(k) == s);
    }
}

/// Number of elements of a tensor of shape `dims`, if it fits in `usize`.
fn checked_numel(dims: &Vec<usize>) -> (r: Option<usize>)
    ensures
        r == (if numel(dims@) <= usize::MAX {
            Some(numel(dims@) as usize)
        } else {
            None::<usize>
        }),
{
    let mut i: usize = 0;
    while i < dims.len()
        invariant
            0 <= i <= dims.len(),
            forall|j: int| 0 <= j < i ==> dims@[j] >= 1,
        decreases dims.len() - i,
    {
        if dims[i] == 0 {
            proof {
                lemma_numel_zero(dims@, i as int);
            }
            return Some(0);
        }
        i = i + 1;
    }
    let mut acc: usize = 1;
    let mut k: usize = 0;
    while k < dims.len()
        invariant
            0 <= k <= dims.len(),
            forall|j: int| 0 <= j < dims.len() ==> dims@[j] >= 1,
            acc == numel(dims@.take(k as int)),
        decreases dims.len() - k,
    {
        assert(dims@.take(k + 1).drop_last() == dims@.take(k as int));
        match acc.checked_mul(dims[k]) {
            Some(p) => {
                acc = p;
            },
            None => {
                proof {
                    lemma_numel_prefix_le(dims@, k + 1);
                }
                return None;
            },
        }
        k = k + 1;
    }
    assert(dims@.take(dims.len() as int) == dims@);
    Some(acc)
}

/// The header entry that describes tensor `t`.
pub open spec fn encode_spec(t: TensorModel) -> DescriptorModel {
    DescriptorModel {
        dtype: spec_dtype_name(t.dtype),
        shape: t.shape.map_values(|x: usize| Some(x as u64)),
        data_offsets: seq![Some(t.start as u64), Some(t.end as u64)],
    }
}

/// A decoded tensor is consistent: its element count times its element width
/// is exactly the length of its byte range, which lies within the buffer.
pub proof fn law_decoded_size(name: Seq<char>, d: Option<DescriptorModel>, total_len: nat)
    requires
        decode_spec(name, d, total_len) is Ok,
    ensures
        ({
            let t = decode_spec(name, d, total_len)->Ok_0;
            &&& t.wf(total_len)
            &&& t.name == name
            &&& numel(t.shape) * spec_dtype_size(t.dtype) == t.end - t.start
        }),
{
}

/// Moving the byte range of a valid descriptor so that its length changes
/// (by one byte or by any other amount), while it stays within the buffer,
/// makes decoding fail with a size mismatch.
pub proof fn law_size_mismatch(
    name: Seq<char>,
    d: DescriptorModel,
    start: u64,
    end: u64,
    total_len: nat,
)
    requires
        decode_spec(name, Some(d), total_len) is Ok,
        start <= end <= total_len,
        end - start != d.data_offsets[1]->Some_0 - d.data_offsets[0]->Some_0,
    ensures
        decode_spec(
            name,
            Some(DescriptorModel { data_offsets: seq![Some(start), Some(end)], ..d }),
            total_len,
        ) == Err::<TensorModel, Fault>(Fault::SizeMismatch(name)),
{
}

/// Offsets out of order or past the end of the buffer make decoding fail with
/// `InvalidOffsets`, whatever the size, once the dtype and shape are valid.
pub proof fn law_invalid_offsets(
    name: Seq<char>,
    d: DescriptorModel,
    start: u64,
    end: u64,
    total_len: nat,
)
    requires
        spec_dtype_from_name(d.dtype) is Some,
        d.shape.len() <= MAX_RANK,
        dims_valid(d.shape),
        start > end || end > total_len,
    ensures
        decode_spec(
            name,
            Some(DescriptorModel { data_offsets: seq![Some(start), Some(end)], ..d }),
            total_len,
        ) == Err::<TensorModel, Fault>(Fault::InvalidOffsets(name)),
{
}

/// A shape of more than four dimensions makes decoding fail with
/// `ShapeRankExceeded`, even when every other field is valid.
pub proof fn law_rank_limit(name: Seq<char>, d: DescriptorModel, total_len: nat)
    requires
        spec_dtype_from_name(d.dtype) is Some,
        d.shape.len() > MAX_RANK,
    ensures
        decode_spec(name, Some(d), total_len) == Err::<TensorModel, Fault>(
            Fault::ShapeRankExceeded(name),
        ),
{
}

/// Decoding the header entry written for a consistent tensor gives back that
/// tensor: same name, dtype, shape and byte range.
pub proof fn law_descriptor_round_trip(t: TensorModel, total_len: nat)
    requires
        t.wf(total_len),
        total_len <= usize::MAX,
    ensures
        decode_spec(t.name, Some(encode_spec(t)), total_len) == Ok::<TensorModel, Fault>(t),
{
    let e = encode_spec(t);
    crate::dtype::lemma_dtype_name_round_trip(t.dtype);
    assert(dims_valid(e.shape));
    assert(dims_of(e.shape) =~= t.shape);
}

/// Each item of a JSON list as a non-negative integer, where it is one.
pub open spec fn json_integers(items: Seq<Value>) -> Seq<Option<u64>> {
    items.map_values(|x: Value| json_u64(x))
}

/// The member `key` of `v` as text.
pub open spec fn text_field(v: Value, key: Seq<char>) -> Option<Seq<char>> {
    match json_member(v, key) {
        Some(x) => json_str(x),
        None => None,
    }
}

/// The member `key` of `v` as a list of integers.
pub open spec fn integers_field(v: Value, key: Seq<char>) -> Option<Seq<Option<u64>>> {
    match json_member(v, key) {
        Some(x) => match json_array(x) {
            Some(items) => Some(json_integers(items)),
            None => None,
        },
        None => None,
    }
}

/// The descriptor that header entry `v` declares; `None` when it lacks a
/// field or gives one the wrong kind of value.
pub open spec fn read_entry(v: Value) -> Option<DescriptorModel> {
    match (
        text_field(v, "dtype"@),
        integers_field(v, "shape"@),
        integers_field(v, "data_offsets"@),
    ) {
        (Some(dtype), Some(shape), Some(data_offsets)) => Some(
            DescriptorModel { dtype, shape, data_offsets },
        ),
        _ => None,
    }
}

impl Descriptor {
    /// Reads the fields of one header entry.
    pub(crate) fn from_json(v: &Value) -> (r: Descriptor)
        ensures
            r@ == read_entry(*v),
    {
        let dtype = match member(v, "dtype") {
            Some(x) => match x.as_str() {
                Some(s) => Some(String::from_str(s)),
                None => None,
            },
            None => None,
        };
        let shape = match member(v, "shape") {
            Some(x) => match x.as_array() {
                Some(items) => Some(integers(items)),
                None => None,
            },
            None => None,
        };
        let data_offsets = match member(v, "data_offsets") {
            Some(x) => match x.as_array() {
                Some(items) => Some(integers(items)),
                None => None,
            },
            None => None,
        };
        Descriptor { dtype, shape, data_offsets }
    }
}

/// Each item of a JSON list as a non-negative integer, where it is one.
fn integers(items: &Vec<Value>) -> (r: Vec<Option<u64>>)
    ensures
        r@ == json_integers(items@),
{
    let mut r: Vec<Option<u64>> = Vec::new();
    let mut i: usize = 0;
    while i < items.len()
        invariant
            0 <= i <= items.len(),
            r@ =~= json_integers(items@.take(i as int)),
        decreases items.len() - i,
    {
        r.push(items[i].as_u64());
        i = i + 1;
        assert(r@ =~= json_integers(items@.take(i as int)));
    }
    assert(items@.take(i as int) =~= items@);
    r
}

impl Tensor {
    /// Decodes header entry `val` of tensor `name` against a buffer of
    /// `total_len` bytes: the outcome is that of [`Tensor::from_descriptor`]
    /// on the fields read from the entry.
    pub fn from_json(name: String, val: &Value, total_len: usize) -> (r: Result<Tensor, LoadError>)
        ensures
            tensor_result(r) == decode_spec(name@, read_entry(*val), total_len as nat),
    {
        let d = Descriptor::from_json(val);
        Tensor::from_descriptor(name, &d, total_len)
    }

    /// The header entry that describes this tensor.
    pub fn descriptor(&self) -> (r: Descriptor)
        ensures
            r@ == Some(encode_spec(self@)),
    {
        let mut shape: Vec<Option<u64>> = Vec::new();
        let mut i: usize = 0;
        while i < self.shape.len()
            invariant
                0 <= i <= self.shape.len(),
                shape@ =~= self.shape@.take(i as int).map_values(|x: usize| Some(x as u64)),
            decreases self.shape.len() - i,
        {
            shape.push(Some(self.shape[i] as u64));
            i = i + 1;
            assert(shape@ =~= self.shape@.take(i as int).map_values(|x: usize| Some(x as u64)));
        }
        assert(self.shape@.take(i as int) =~= self.shape@);
        let data_offsets = vec![Some(self.start as u64), Some(self.end as u64)];
        let r = Descriptor {
            dtype: Some(dtype_to_string(self.dtype)),
            shape: Some(shape),
            data_offsets: Some(data_offsets),
        };
        assert(r@->Some_0.data_offsets =~= encode_spec(self@).data_offsets);
        r
    }

    pub fn name(&self) -> (r: &String)
        ensures
            r@ == self@.name,
    {
        &self.name
    }

    pub fn dtype(&self) -> (r: DType)
        ensures
            r == self@.dtype,
    {
        self.dtype
    }

    pub fn shape(&self) -> (r: &Vec<usize>)
        ensures
            r@ == self@.shape,
    {
        &self.shape
    }

    /// Offset of the first byte of the tensor in its container's buffer.
    pub fn start(&self) -> (r: usize)
        ensures
            r == self@.start,
            r <= self@.end,
    {
        proof {
            use_type_invariant(self);
        }
        self.start
    }

    /// Offset just past the last byte of the tensor.
    pub fn end(&self) -> (r: usize)
        ensures
            r == self@.end,
    {
        self.end
    }

    /// Length of the tensor's byte range, which equals its element count
    /// times its element width.
    pub fn byte_len(&self) -> (r: usize)
        ensures
            r == self@.end - self@.start,
            r == numel(self@.shape) * spec_dtype_size(self@.dtype),
    {
        proof {
            use_type_invariant(self);
        }
        self.end - self.start
    }

    /// Number of elements of the tensor.
    pub fn numel(&self) -> (r: usize)
        ensures
            r == numel(self@.shape),
    {
        proof {
            use_type_invariant(self);
            let n = numel(self@.shape);
            let w = spec_dtype_size(self@.dtype);
            assert(n <= n * w) by (nonlinear_arith)
                requires
                    w >= 1,
            ;
        }
        match checked_numel(&self.shape) {
            Some(n) => n,
            None => 0,
        }
    }

    /// Validates descriptor `d` of tensor `name` against a buffer of
    /// `total_len` bytes. No tensor is produced when any check fails.
    pub fn from_descriptor(name: String, d: &Descriptor, total_len: usize) -> (r: Result<
        Tensor,
        LoadError,
    >)
        ensures
            tensor_result(r) == decode_spec(name@, d@, total_len as nat),
    {
        let (dtype_name, dims, offsets) = match (&d.dtype, &d.shape, &d.data_offsets) {
            (Some(t), Some(s), Some(o)) => (t, s, o),
            _ => {
                return Err(LoadError::MalformedHeader(Some(name)));
            },
        };
        let dtype = match dtype_from_name(dtype_name.as_str()) {
            Some(t) => t,
            None => {
                return Err(LoadError::UnknownDType(name));
            },
        };
        if dims.len() > MAX_RANK {
            return Err(LoadError::ShapeRankExceeded(name));
        }
        let mut shape: Vec<usize> = Vec::new();
        let mut i: usize = 0;
        while i < dims.len()
            invariant
                0 <= i <= dims.len(),
                dims.len() <= MAX_RANK,
                spec_dtype_from_name(dtype_name@) == Some(dtype),
                d@ == Some(DescriptorModel { dtype: dtype_name@, shape: dims@, data_offsets: offsets@ }),
                shape@ == dims_of(dims@.take(i as int)),
                dims_valid(dims@.take(i as int)),
            decreases dims.len() - i,
        {
            match dims[i] {
                Some(v) => {
                    if v > usize::MAX as u64 {
                        assert(dims@[i as int] == Some(v));
                        return Err(LoadError::InvalidShapeValue(name));
                    }
                    shape.push(v as usize);
                },
                None => {
                    assert(dims@[i as int] is None);
                    return Err(LoadError::InvalidShapeValue(name));
                },
            }
            assert(dims@.take(i + 1).drop_last() == dims@.take(i as int));
            assert(shape@ =~= dims_of(dims@.take(i + 1)));
            i = i + 1;
        }
        assert(dims@.take(dims.len() as int) == dims@);
        if offsets.len() != 2 {
            return Err(LoadError::InvalidOffsets(name));
        }
        let (start, end) = match (offsets[0], offsets[1]) {
            (Some(s), Some(e)) => (s, e),
            _ => {
                return Err(LoadError::InvalidOffsets(name));
            },
        };
        if start > end || end > total_len as u64 {
            return Err(LoadError::InvalidOffsets(name));
        }
        let start = start as usize;
        let end = end as usize;
        let width = dtype_size(dtype);
        let bytes = match checked_numel(&shape) {
            Some(n) => n.checked_mul(width),
            None => None,
        };
        let ghost n = numel(shape@);
        match bytes {
            Some(b) => {
                if b != end - start {
                    return Err(LoadError::SizeMismatch(name));
                }
            },
            None => {
                assert(n * spec_dtype_size(dtype) > usize::MAX) by (nonlinear_arith)
                    requires
                        n > usize::MAX || n * spec_dtype_size(dtype) > usize::MAX,
                        spec_dtype_size(dtype) >= 1,
                ;
                return Err(LoadError::SizeMismatch(name));
            },
        }
        Ok(Tensor { name, dtype, shape, start, end })
    }
}

} // verus!
