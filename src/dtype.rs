use vstd::prelude::*;

verus! {

/// Element kinds that a tensor may hold.
#[derive(Debug, Clone, Copy, PartialEq, Eq, Structural)]
pub enum DType {
    F32,
    F16,
    BF16,
    F8E5M2,
    F8E4M3,
    I32,
    I16,
    I8,
    U8,
}

/// Canonical header name of each element kind.
pub open spec fn spec_dtype_name(d: DType) -> Seq<char> {
    match d {
        DType::F32 => seq!['F', '3', '2'],
        DType::F16 => seq!['F', '1', '6'],
        DType::BF16 => seq!['B', 'F', '1', '6'],
        DType::F8E5M2 => seq!['F', '8', '_', 'E', '5', 'M', '2'],
        DType::F8E4M3 => seq!['F', '8', '_', 'E', '4', 'M', '3'],
        DType::I32 => seq!['I', '3', '2'],
        DType::I16 => seq!['I', '1', '6'],
        DType::I8 => seq!['I', '8'],
        DType::U8 => seq!['U', '8'],
    }
}

/// Width in bytes of one element of each kind.
pub open spec fn spec_dtype_size(d: DType) -> nat {
    match d {
        DType::F32 | DType::I32 => 4,
        DType::F16 | DType::BF16 | DType::I16 => 2,
        DType::F8E5M2 | DType::F8E4M3 | DType::I8 | DType::U8 => 1,
    }
}

/// The element kind whose canonical name is `s`, if any.
pub open spec fn spec_dtype_from_name(s: Seq<char>) -> Option<DType> {
    if exists|d: DType| spec_dtype_name(d) == s {
        Some(choose|d: DType| spec_dtype_name(d) == s)
    } else {
        None
    }
}

/// Distinct kinds have distinct names, so a name resolves to one kind.
pub proof fn lemma_dtype_name_injective(a: DType, b: DType)
    ensures
        spec_dtype_name(a) == spec_dtype_name(b) ==> a == b,
{
    if spec_dtype_name(a) == spec_dtype_name(b) {
        let (x, y) = (spec_dtype_name(a), spec_dtype_name(b));
        assert(x.len() == y.len());
        assert(x[0] == y[0]);
        if x.len() > 1 {
            assert(x[1] == y[1]);
        }
        if x.len() > 2 {
            assert(x[2] == y[2]);
        }
        if x.len() > 5 {
            assert(x[4] == y[4]);
        }
    }
}

/// Looking up the name of a kind gives that kind back.
pub proof fn lemma_dtype_name_round_trip(d: DType)
    ensures
        spec_dtype_from_name(spec_dtype_name(d)) == Some(d),
{
    let s = spec_dtype_name(d);
    assert(exists|e: DType| spec_dtype_name(e) == s);
    let c = choose|e: DType| spec_dtype_name(e) == s;
    lemma_dtype_name_injective(c, d);
}

/// The canonical name of `dtype`.
pub fn dtype_to_string(dtype: DType) -> (r: String)
    ensures
        r@ == spec_dtype_name(dtype),
{
    let s: &str = match dtype {
        DType::F32 => "F32",
        DType::F16 => "F16",
        DType::BF16 => "BF16",
        DType::F8E5M2 => "F8_E5M2",
        DType::F8E4M3 => "F8_E4M3",
        DType::I32 => "I32",
        DType::I16 => "I16",
        DType::I8 => "I8",
        DType::U8 => "U8",
    };
    proof {
        reveal_strlit("F32");
        reveal_strlit("F16");
        reveal_strlit("BF16");
        reveal_strlit("F8_E5M2");
        reveal_strlit("F8_E4M3");
        reveal_strlit("I32");
        reveal_strlit("I16");
        reveal_strlit("I8");
        reveal_strlit("U8");
    }
    let r = String::from_str(s);
    assert(r@ =~= spec_dtype_name(dtype));
    r
}

/// Width in bytes of one element of `dtype`.
pub fn dtype_size(dtype: DType) -> (r: usize)
    ensures
        r == spec_dtype_size(dtype),
        1 <= r <= 4,
{
    match dtype {
        DType::F32 | DType::I32 => 4,
        DType::F16 | DType::BF16 | DType::I16 => 2,
        DType::F8E5M2 | DType::F8E4M3 | DType::I8 | DType::U8 => 1,
    }
}

/// Resolves a canonical name; `None` for any other text.
pub fn dtype_from_name(name: &str) -> (r: Option<DType>)
    ensures
        r == spec_dtype_from_name(name@),
{
    let all: [DType; 9] = [
        DType::F32,
        DType::F16,
        DType::BF16,
        DType::F8E5M2,
        DType::F8E4M3,
        DType::I32,
        DType::I16,
        DType::I8,
        DType::U8,
    ];
    let ghost kinds = all@;
    assert forall|d: DType| #[trigger] kinds.contains(d) by {
        match d {
            DType::F32 => assert(kinds[0] == d),
            DType::F16 => assert(kinds[1] == d),
            DType::BF16 => assert(kinds[2] == d),
            DType::F8E5M2 => assert(kinds[3] == d),
            DType::F8E4M3 => assert(kinds[4] == d),
            DType::I32 => assert(kinds[5] == d),
            DType::I16 => assert(kinds[6] == d),
            DType::I8 => assert(kinds[7] == d),
            DType::U8 => assert(kinds[8] == d),
        }
    }
    let target = String::from_str(name);
    let mut i: usize = 0;
    while i < 9
        invariant
            0 <= i <= 9,
            kinds == all@,
            target@ == name@,
            forall|j: int| 0 <= j < i ==> spec_dtype_name(#[trigger] kinds[j]) != name@,
        decreases 9 - i,
    {
        let d = all[i];
        let candidate = dtype_to_string(d);
        if candidate == target {
            proof {
                lemma_dtype_name_round_trip(d);
            }
            return Some(d);
        }
        i = i + 1;
    }
    proof {
        if exists|d: DType| spec_dtype_name(d) == name@ {
            let d = choose|d: DType| spec_dtype_name(d) == name@;
            assert(kinds.contains(d));
            let j = choose|j: int| 0 <= j < kinds.len() && kinds[j] == d;
            assert(spec_dtype_name(kinds[j]) != name@);
        }
    }
    None
}

} // verus!
