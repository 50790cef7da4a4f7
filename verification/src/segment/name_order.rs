use vstd::prelude::*;

verus! {

/// Whether `a` and `b` agree before position `k` and `a` comes first by what
/// stands at `k`: `a` ends there and `b` does not, or `a` has the smaller
/// character.
pub open spec fn first_at(a: Seq<char>, b: Seq<char>, k: int) -> bool {
    &&& 0 <= k <= a.len()
    &&& k <= b.len()
    &&& a.subrange(0, k) == b.subrange(0, k)
    &&& if k == a.len() {
        k < b.len()
    } else {
        k < b.len() && (a[k] as u32) < (b[k] as u32)
    }
}

/// Whether `a` comes before `b` in the order of strings: at the first
/// position where they differ `a` has the smaller character, or `a` is a
/// proper prefix of `b`.
pub open spec fn name_lt(a: Seq<char>, b: Seq<char>) -> bool {
    exists|k: int| first_at(a, b, k)
}

/// No name comes before itself.
pub proof fn lemma_name_lt_irreflexive(a: Seq<char>)
    ensures
        !name_lt(a, a),
{
}

/// The order of names is transitive.
pub proof fn lemma_name_lt_transitive(a: Seq<char>, b: Seq<char>, c: Seq<char>)
    requires
        name_lt(a, b),
        name_lt(b, c),
    ensures
        name_lt(a, c),
{
    let k1 = choose|k: int| first_at(a, b, k);
    let k2 = choose|k: int| first_at(b, c, k);
    let k = if k1 <= k2 {
        k1
    } else {
        k2
    };
    assert forall|i: int| 0 <= i < k implies a[i] == c[i] by {
        assert(a.subrange(0, k1)[i] == b.subrange(0, k1)[i]);
        assert(b.subrange(0, k2)[i] == c.subrange(0, k2)[i]);
    }
    assert(a.subrange(0, k) =~= c.subrange(0, k));
    if k1 < k2 {
        assert(b.subrange(0, k2)[k1] == c.subrange(0, k2)[k1]);
    } else if k2 < k1 {
        assert(a.subrange(0, k1)[k2] == b.subrange(0, k1)[k2]);
    }
    assert(first_at(a, c, k));
}

/// How two names stand to each other: 0 where the first comes before the
/// second, 1 where they are equal, 2 where the first comes after.
pub fn name_order(a: &Vec<char>, b: &Vec<char>) -> (r: u8)
    ensures
        r == 0 <==> name_lt(a@, b@),
        r == 1 <==> a@ == b@,
        r == 2 <==> name_lt(b@, a@),
        r <= 2,
{
    let n = if a.len() < b.len() {
        a.len()
    } else {
        b.len()
    };
    let mut i: usize = 0;
    while i < n
        invariant
            i <= n,
            n <= a@.len(),
            n <= b@.len(),
            a@.subrange(0, i as int) == b@.subrange(0, i as int),
        decreases n - i,
    {
        let x = a[i] as u32;
        let y = b[i] as u32;
        if x != y {
            proof {
                lemma_stands_apart(a@, b@, i as int);
            }
            return if x < y {
                0
            } else {
                2
            };
        }
        assert(a@.subrange(0, i + 1) =~= b@.subrange(0, i + 1)) by {
            vstd::utf8::char_u32_cast(a@[i as int], x);
            vstd::utf8::char_u32_cast(b@[i as int], y);
            assert forall|k: int| 0 <= k < i + 1 implies a@[k] == b@[k] by {
                if k < i {
                    assert(a@.subrange(0, i as int)[k] == b@.subrange(0, i as int)[k]);
                }
            }
        }
        i = i + 1;
    }
    proof {
        lemma_stands_apart(a@, b@, n as int);
    }
    if a.len() < b.len() {
        0
    } else if a.len() == b.len() {
        1
    } else {
        2
    }
}

/// Two names that agree before position `k` stand to each other as that
/// position decides: by the characters there, or by which of them ends there.
pub proof fn lemma_stands_apart(a: Seq<char>, b: Seq<char>, k: int)
    requires
        0 <= k <= a.len(),
        k <= b.len(),
        a.subrange(0, k) == b.subrange(0, k),
        k == a.len() || k == b.len() || a[k] != b[k],
    ensures
        name_lt(a, b) <==> (if k == a.len() {
            k < b.len()
        } else {
            k < b.len() && (a[k] as u32) < (b[k] as u32)
        }),
        name_lt(b, a) <==> (if k == b.len() {
            k < a.len()
        } else {
            k < a.len() && (b[k] as u32) < (a[k] as u32)
        }),
        a == b <==> (k == a.len() && k == b.len()),
{
    assert(b.subrange(0, k) == a.subrange(0, k));
    if k == a.len() && k == b.len() {
        assert(a =~= a.subrange(0, k));
        assert(b =~= b.subrange(0, k));
    }
    if k < a.len() && k < b.len() {
        vstd::utf8::char_u32_cast(a[k], a[k] as u32);
        vstd::utf8::char_u32_cast(b[k], b[k] as u32);
    }
    if name_lt(a, b) {
        let j = choose|j: int| first_at(a, b, j);
        assert(first_at(a, b, j));
        if j < k {
            assert(0 <= j < k <= a.len() && k <= b.len());
            assert(a.subrange(0, k)[j] == a[j]);
            assert(b.subrange(0, k)[j] == b[j]);
            assert(false);
        } else if j > k {
            assert(a.subrange(0, j)[k] == b.subrange(0, j)[k]);
            assert(false);
        }
        assert(j == k);
    } else {
        assert(!first_at(a, b, k));
    }
    if name_lt(b, a) {
        let j = choose|j: int| first_at(b, a, j);
        assert(first_at(b, a, j));
        if j < k {
            assert(0 <= j < k <= a.len() && k <= b.len());
            assert(a.subrange(0, k)[j] == a[j]);
            assert(b.subrange(0, k)[j] == b[j]);
            assert(false);
        } else if j > k {
            assert(b.subrange(0, j)[k] == a.subrange(0, j)[k]);
            assert(false);
        }
        assert(j == k);
    } else {
        assert(!first_at(b, a, k));
    }
}

} // verus!
