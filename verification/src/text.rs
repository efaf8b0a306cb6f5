//! Names stored in fixed-size, zero-padded ASCII fields.
use vstd::prelude::*;

verus! {

broadcast use vstd::seq_lib::group_seq_properties;

/// A byte that may stand in a name: ASCII, and not the terminating zero.
pub open spec fn name_byte(c: u8) -> bool {
    0 < c < 0x80
}

/// All bytes of `name` may stand in a name.
pub open spec fn valid_name(name: Seq<u8>) -> bool {
    forall|i: int| 0 <= i < name.len() ==> #[trigger] name_byte(name[i])
}

/// All bytes are zero.
pub open spec fn all_zero(b: Seq<u8>) -> bool {
    forall|i: int| 0 <= i < b.len() ==> #[trigger] b[i] == 0
}

/// `n` zero bytes.
pub open spec fn zeros(n: nat) -> Seq<u8> {
    Seq::new(n, |i: int| 0u8)
}

/// The field of `n` bytes that holds `name`: the name, then zeros.
pub open spec fn padded(name: Seq<u8>, n: nat) -> Seq<u8> {
    name + zeros((n - name.len()) as nat)
}

/// The field `b` holds a name of `k` bytes: `k` name bytes, then only zeros.
pub open spec fn split_at_padding(b: Seq<u8>, k: int) -> bool {
    &&& 0 <= k <= b.len()
    &&& valid_name(b.take(k))
    &&& all_zero(b.skip(k))
}

/// The name held by a zero-padded ASCII field, if it holds one.
pub open spec fn unpad(b: Seq<u8>) -> Option<Seq<u8>> {
    if exists|k: int| split_at_padding(b, k) {
        Some(b.take(choose|k: int| split_at_padding(b, k)))
    } else {
        None
    }
}

/// The field of `n` bytes for `name`, if the name fits and is valid.
pub open spec fn pad(name: Seq<u8>, n: nat) -> Option<Seq<u8>> {
    if name.len() <= n && valid_name(name) {
        Some(padded(name, n))
    } else {
        None
    }
}

/// A field holds at most one name.
pub proof fn lemma_split_unique(b: Seq<u8>, k1: int, k2: int)
    requires
        split_at_padding(b, k1),
        split_at_padding(b, k2),
    ensures
        k1 == k2,
{
    if k1 < k2 {
        assert(b.skip(k1)[0] == 0);
        assert(name_byte(b.take(k2)[k1]));
    } else if k2 < k1 {
        assert(b.skip(k2)[0] == 0);
        assert(name_byte(b.take(k1)[k2]));
    }
}

/// Unpadding a padded name gives the name back.
pub proof fn lemma_unpad_pad(name: Seq<u8>, n: nat)
    requires
        pad(name, n) is Some,
    ensures
        unpad(pad(name, n).unwrap()) == Some(name),
{
    let b = padded(name, n);
    let k = name.len() as int;
    assert(b.take(k) =~= name);
    assert(b.skip(k) =~= zeros((n - name.len()) as nat));
    assert(split_at_padding(b, k));
    let c = choose|k: int| split_at_padding(b, k);
    lemma_split_unique(b, k, c);
}

/// Padding the name held by a field gives the field back.
pub proof fn lemma_pad_unpad(b: Seq<u8>)
    requires
        unpad(b) is Some,
    ensures
        unpad(b).unwrap().len() <= b.len(),
        pad(unpad(b).unwrap(), b.len()) == Some(b),
{
    let k = choose|k: int| split_at_padding(b, k);
    let name = b.take(k);
    assert(padded(name, b.len()) =~= b) by {
        assert(b.skip(k) =~= zeros((b.len() - k) as nat));
    }
}

/// Reads the name of a zero-padded ASCII field.
pub fn unpad_exec(b: &Vec<u8>) -> (r: Option<Vec<u8>>)
    ensures
        match unpad(b@) {
            Some(name) => r matches Some(v) && v@ == name,
            None => r is None,
        },
{
    let n = b.len();
    let mut k: usize = 0;
    while k < n && b[k] != 0
        invariant
            0 <= k <= n,
            n == b@.len(),
            forall|i: int| 0 <= i < k ==> b@[i] != 0,
        decreases n - k,
    {
        k = k + 1;
    }
    // `k` is the first zero byte, or the end.
    let mut i: usize = 0;
    while i < k
        invariant
            0 <= i <= k <= n,
            n == b@.len(),
            forall|j: int| 0 <= j < k ==> b@[j] != 0,
            forall|j: int| 0 <= j < i ==> #[trigger] name_byte(b@[j]),
        decreases k - i,
    {
        if b[i] >= 0x80 {
            proof {
                assert forall|c: int| split_at_padding(b@, c) implies false by {
                    if c > i {
                        assert(name_byte(b@.take(c)[i as int]));
                    } else if c <= i {
                        assert(b@.skip(c)[i - c] == b@[i as int]);
                    }
                }
            }
            return None;
        }
        i = i + 1;
    }
    let mut j: usize = k;
    while j < n
        invariant
            k <= j <= n,
            n == b@.len(),
            k < n ==> b@[k as int] == 0,
            forall|x: int| k <= x < j ==> b@[x] == 0,
        decreases n - j,
    {
        if b[j] != 0 {
            proof {
                assert forall|c: int| split_at_padding(b@, c) implies false by {
                    if c <= j {
                        assert(b@.skip(c)[j - c] == b@[j as int]);
                    } else {
                        assert(name_byte(b@.take(c)[k as int]));
                    }
                }
            }
            return None;
        }
        j = j + 1;
    }
    let mut name: Vec<u8> = Vec::new();
    let mut t: usize = 0;
    while t < k
        invariant
            0 <= t <= k <= n,
            n == b@.len(),
            name@ == b@.take(t as int),
        decreases k - t,
    {
        name.push(b[t]);
        t = t + 1;
        proof {
            assert(name@ =~= b@.take(t as int));
        }
    }
    proof {
        assert(split_at_padding(b@, k as int)) by {
            assert forall|x: int| 0 <= x < b@.take(k as int).len() implies #[trigger] name_byte(
                b@.take(k as int)[x],
            ) by {
                assert(name_byte(b@[x]));
            }
            assert forall|x: int| 0 <= x < b@.skip(k as int).len() implies #[trigger] b@.skip(
                k as int,
            )[x] == 0 by {
                assert(b@[k + x] == 0);
            }
        }
        let c = choose|c: int| split_at_padding(b@, c);
        lemma_split_unique(b@, k as int, c);
    }
    Some(name)
}

/// The field of `n` bytes that holds `name`, if the name fits and is valid.
pub fn pad_exec(name: &Vec<u8>, n: usize) -> (r: Option<Vec<u8>>)
    ensures
        match pad(name@, n as nat) {
            Some(b) => r matches Some(v) && v@ == b,
            None => r is None,
        },
{
    if name.len() > n {
        return None;
    }
    let mut out: Vec<u8> = Vec::new();
    let mut i: usize = 0;
    while i < name.len()
        invariant
            0 <= i <= name@.len() <= n,
            out@ == name@.take(i as int),
            forall|j: int| 0 <= j < i ==> #[trigger] name_byte(name@[j]),
        decreases name@.len() - i,
    {
        let c = name[i];
        if c == 0 || c >= 0x80 {
            proof {
                assert(!name_byte(name@[i as int]));
            }
            return None;
        }
        out.push(c);
        i = i + 1;
        proof {
            assert(out@ =~= name@.take(i as int));
        }
    }
    while i < n
        invariant
            name@.len() <= i <= n,
            out@ == name@ + zeros((i - name@.len()) as nat),
        decreases n - i,
    {
        out.push(0);
        i = i + 1;
        proof {
            assert(out@ =~= name@ + zeros((i - name@.len()) as nat));
        }
    }
    proof {
        assert(name@.take(name@.len() as int) =~= name@);
    }
    Some(out)
}

/// `n` zero bytes.
pub fn zeros_exec(n: usize) -> (r: Vec<u8>)
    ensures
        r@ == zeros(n as nat),
{
    let mut out: Vec<u8> = Vec::new();
    let mut i: usize = 0;
    while i < n
        invariant
            0 <= i <= n,
            out@ == zeros(i as nat),
        decreases n - i,
    {
        out.push(0);
        i = i + 1;
        proof {
            assert(out@ =~= zeros(i as nat));
        }
    }
    out
}

/// All bytes are zero.
pub fn all_zero_exec(b: &Vec<u8>) -> (r: bool)
    ensures
        r == all_zero(b@),
{
    let mut i: usize = 0;
    while i < b.len()
        invariant
            0 <= i <= b@.len(),
            forall|j: int| 0 <= j < i ==> b@[j] == 0,
        decreases b@.len() - i,
    {
        if b[i] != 0 {
            return false;
        }
        i = i + 1;
    }
    true
}

/// Two byte strings are equal.
pub fn bytes_eq(a: &Vec<u8>, b: &Vec<u8>) -> (r: bool)
    ensures
        r == (a@ == b@),
{
    if a.len() != b.len() {
        return false;
    }
    let mut i: usize = 0;
    while i < a.len()
        invariant
            0 <= i <= a@.len(),
            a@.len() == b@.len(),
            forall|j: int| 0 <= j < i ==> a@[j] == b@[j],
        decreases a@.len() - i,
    {
        if a[i] != b[i] {
            return false;
        }
        i = i + 1;
    }
    proof {
        assert(a@ =~= b@);
    }
    true
}

/// A copy of a byte string.
pub fn copy_bytes(a: &Vec<u8>) -> (r: Vec<u8>)
    ensures
        r@ == a@,
{
    let mut out: Vec<u8> = Vec::new();
    append_all(&mut out, a);
    out
}

fn append_all(out: &mut Vec<u8>, b: &Vec<u8>)
    requires
        old(out)@.len() == 0,
    ensures
        final(out)@ == b@,
{
    let mut i: usize = 0;
    while i < b.len()
        invariant
            0 <= i <= b@.len(),
            out@ == b@.take(i as int),
        decreases b@.len() - i,
    {
        out.push(b[i]);
        i = i + 1;
        proof {
            assert(out@ =~= b@.take(i as int));
        }
    }
    proof {
        assert(b@.take(i as int) =~= b@);
    }
}

} // verus!
