use vstd::prelude::*;

verus! {

/// The forkserver announces options.
pub const FS_OPT_ENABLED: u32 = 0x80000001;

/// The hello word carries the target's coverage map size.
pub const FS_OPT_MAPSIZE: u32 = 0x40000000;

/// The target can read inputs from a shared memory segment.
pub const FS_OPT_SHDMEM_FUZZ: u32 = 0x01000000;

/// The target can send its auto-extracted token dictionary.
pub const FS_OPT_AUTODICT: u32 = 0x10000000;

/// Every bit of `flag` is set in `status`.
pub open spec fn has_flag(status: u32, flag: u32) -> bool {
    status & flag == flag
}

/// The map size announced in a hello word, before rounding.
pub open spec fn announced_map_size(status: u32) -> nat {
    ((status & 0x00fffffe) >> 1u32) as nat + 1
}

/// `n` rounded up to a multiple of 64.
pub open spec fn round_up_64(n: nat) -> nat {
    if n % 64 == 0 {
        n
    } else {
        (n / 64 + 1) * 64
    }
}

/// What the handshake settled.
#[derive(Clone, Copy, Debug, PartialEq, Eq, Structural)]
pub struct Negotiated {
    /// The coverage map size the target asked for, rounded up to a
    /// multiple of 64, when it announced one.
    pub map_size: Option<usize>,
    /// The word to send back, when one must be sent.
    pub reply: Option<u32>,
    /// Inputs go through the shared memory segment.
    pub shmem_input: bool,
    /// The dictionary follows on the status pipe.
    pub autodict: bool,
}

/// Settles the options of the hello word `status`: the map size when the
/// target announces one, and which of the offered features to take
/// (shared-memory input when a segment is available, the dictionary when
/// one is wanted). A reply is sent only when some feature is taken.
pub fn negotiate(status: u32, shmem_available: bool, want_autodict: bool) -> (r: Negotiated)
    ensures
        r.map_size == (if has_flag(status, FS_OPT_ENABLED) && has_flag(status, FS_OPT_MAPSIZE) {
            Some(round_up_64(announced_map_size(status)) as usize)
        } else {
            None
        }),
        r.shmem_input == (has_flag(status, FS_OPT_ENABLED) && has_flag(status, FS_OPT_SHDMEM_FUZZ)
            && shmem_available),
        r.autodict == (has_flag(status, FS_OPT_ENABLED) && has_flag(status, FS_OPT_AUTODICT)
            && want_autodict),
        r.reply == (if r.shmem_input || r.autodict {
            Some(
                FS_OPT_ENABLED | (if r.shmem_input {
                    FS_OPT_SHDMEM_FUZZ
                } else {
                    0
                }) | (if r.autodict {
                    FS_OPT_AUTODICT
                } else {
                    0
                }),
            )
        } else {
            None
        }),
{
    let enabled = status & FS_OPT_ENABLED == FS_OPT_ENABLED;
    let map_size = if enabled && status & FS_OPT_MAPSIZE == FS_OPT_MAPSIZE {
        let raw = (status & 0x00fffffe) >> 1u32;
        assert(raw <= 0x7fffff) by (bit_vector)
            requires
                raw == (status & 0x00fffffe) >> 1u32,
        ;
        let m = raw as usize + 1;
        if m % 64 == 0 {
            Some(m)
        } else {
            Some((m / 64 + 1) * 64)
        }
    } else {
        None
    };
    let shmem_input = enabled && status & FS_OPT_SHDMEM_FUZZ == FS_OPT_SHDMEM_FUZZ
        && shmem_available;
    let autodict = enabled && status & FS_OPT_AUTODICT == FS_OPT_AUTODICT && want_autodict;
    let reply = if shmem_input || autodict {
        let a = if shmem_input {
            FS_OPT_SHDMEM_FUZZ
        } else {
            0
        };
        let b = if autodict {
            FS_OPT_AUTODICT
        } else {
            0
        };
        Some(FS_OPT_ENABLED | a | b)
    } else {
        None
    };
    Negotiated { map_size, reply, shmem_input, autodict }
}

/// The dictionary size announced by the target is acceptable.
pub fn dict_size_valid(size: i32) -> (r: bool)
    ensures
        r == (2 <= size <= 0xffffff),
{
    2 <= size && size <= 0xffffff
}

/// The tokens of the records from `head` on: each record is a length byte
/// followed by that many bytes, and an empty record carries no token.
/// `None` when a record runs past the end.
pub open spec fn dict_records(b: Seq<u8>, head: int) -> Option<Seq<Seq<u8>>>
    decreases b.len() - head,
{
    if head < 0 || head >= b.len() {
        Some(Seq::empty())
    } else {
        let n = b[head] as int;
        if head + 1 + n > b.len() {
            None
        } else {
            match dict_records(b, head + 1 + n) {
                None => None,
                Some(rest) => Some(
                    if n == 0 {
                        rest
                    } else {
                        seq![b.subrange(head + 1, head + 1 + n)] + rest
                    },
                ),
            }
        }
    }
}

/// `acc` followed by the tokens of `o`, when `o` holds any.
pub open spec fn prepend(acc: Seq<Seq<u8>>, o: Option<Seq<Seq<u8>>>) -> Option<Seq<Seq<u8>>> {
    match o {
        None => None,
        Some(r) => Some(acc + r),
    }
}

/// The list `acc` after adding each token of `ts` in turn, a token that is
/// already present being left out.
pub open spec fn with_tokens(acc: Seq<Seq<u8>>, ts: Seq<Seq<u8>>) -> Seq<Seq<u8>>
    decreases ts.len(),
{
    if ts.len() == 0 {
        acc
    } else {
        let a = with_tokens(acc, ts.drop_last());
        if a.contains(ts.last()) {
            a
        } else {
            a.push(ts.last())
        }
    }
}

/// The dictionary that a target sent: its tokens in order of first
/// appearance, each once; `None` when the records do not fit the bytes.
pub open spec fn autodict(b: Seq<u8>) -> Option<Seq<Seq<u8>>> {
    match dict_records(b, 0) {
        None => None,
        Some(ts) => Some(with_tokens(Seq::empty(), ts)),
    }
}

/// The deep content of a list of byte strings.
pub open spec fn byte_strings(v: Seq<Vec<u8>>) -> Seq<Seq<u8>> {
    v.map_values(|t: Vec<u8>| t@)
}

/// Whether two byte strings are equal.
pub fn bytes_equal(a: &Vec<u8>, b: &Vec<u8>) -> (r: bool)
    ensures
        r == (a@ == b@),
{
    if a.len() != b.len() {
        return false;
    }
    let mut i: usize = 0;
    while i < a.len()
        invariant
            a@.len() == b@.len(),
            i <= a@.len(),
            forall|j: int| 0 <= j < i ==> a@[j] == b@[j],
        decreases a@.len() - i,
    {
        if a[i] != b[i] {
            return false;
        }
        i = i + 1;
    }
    assert(a@ =~= b@);
    true
}

/// Adds `t` to `tokens` unless an equal token is already there.
pub fn add_token(tokens: &mut Vec<Vec<u8>>, t: Vec<u8>)
    ensures
        byte_strings(final(tokens)@) == (if byte_strings(old(tokens)@).contains(t@) {
            byte_strings(old(tokens)@)
        } else {
            byte_strings(old(tokens)@).push(t@)
        }),
{
    let ghost before = byte_strings(tokens@);
    let mut i: usize = 0;
    while i < tokens.len()
        invariant
            i <= tokens@.len(),
            before == byte_strings(tokens@),
            forall|j: int| 0 <= j < i ==> tokens@[j]@ != t@,
        decreases tokens@.len() - i,
    {
        if bytes_equal(&tokens[i], &t) {
            assert(before[i as int] == t@);
            return;
        }
        i = i + 1;
    }
    assert(!before.contains(t@));
    tokens.push(t);
    assert(byte_strings(tokens@) =~= before.push(t@));
}

proof fn lemma_prepend_assoc(a: Seq<Seq<u8>>, x: Seq<Seq<u8>>, o: Option<Seq<Seq<u8>>>)
    ensures
        prepend(a, prepend(x, o)) == prepend(a + x, o),
{
    if let Some(r) = o {
        assert(a + (x + r) =~= (a + x) + r);
    }
}

/// Splits an auto-dictionary into the tokens of its records, in order.
pub fn dict_tokens(b: &Vec<u8>) -> (r: Option<Vec<Vec<u8>>>)
    ensures
        r matches Some(v) ==> dict_records(b@, 0) == Some(byte_strings(v@)),
        r is None ==> dict_records(b@, 0) is None,
{
    let mut acc: Vec<Vec<u8>> = Vec::new();
    let mut head: usize = 0;
    assert(byte_strings(acc@) =~= Seq::<Seq<u8>>::empty());
    assert(prepend(Seq::empty(), dict_records(b@, 0)) == dict_records(b@, 0)) by {
        if let Some(r) = dict_records(b@, 0) {
            assert(Seq::<Seq<u8>>::empty() + r =~= r);
        }
    }
    while head < b.len()
        invariant
            head <= b@.len(),
            dict_records(b@, 0) == prepend(byte_strings(acc@), dict_records(b@, head as int)),
        decreases b@.len() - head,
    {
        let n = b[head] as usize;
        if n > b.len() - head - 1 {
            return None;
        }
        let next = head + 1 + n;
        if n > 0 {
            let t = crate::mutation::slice_copy(b, head + 1, next);
            let ghost old_acc = byte_strings(acc@);
            acc.push(t);
            assert(byte_strings(acc@) =~= old_acc + seq![t@]);
            proof {
                lemma_prepend_assoc(old_acc, seq![t@], dict_records(b@, next as int));
            }
        } else {
            assert(prepend(Seq::empty(), dict_records(b@, next as int)) == dict_records(
                b@,
                next as int,
            )) by {
                if let Some(r) = dict_records(b@, next as int) {
                    assert(Seq::<Seq<u8>>::empty() + r =~= r);
                }
            }
            proof {
                lemma_prepend_assoc(byte_strings(acc@), Seq::empty(), dict_records(b@, next as int));
            }
            assert(byte_strings(acc@) + Seq::<Seq<u8>>::empty() =~= byte_strings(acc@));
        }
        head = next;
    }
    assert(byte_strings(acc@) + Seq::<Seq<u8>>::empty() =~= byte_strings(acc@));
    Some(acc)
}

/// Parses the auto-dictionary a target sent: its tokens in order of first
/// appearance, each once; `None` when a record runs past the end.
pub fn parse_autodict(b: &Vec<u8>) -> (r: Option<Vec<Vec<u8>>>)
    ensures
        r matches Some(v) ==> autodict(b@) == Some(byte_strings(v@)),
        r is None ==> autodict(b@) is None,
{
    match dict_tokens(b) {
        None => None,
        Some(ts) => {
            let mut out: Vec<Vec<u8>> = Vec::new();
            let mut i: usize = 0;
            let ghost all = byte_strings(ts@);
            assert(all.subrange(0, 0) =~= Seq::<Seq<u8>>::empty());
            assert(byte_strings(out@) =~= Seq::<Seq<u8>>::empty());
            while i < ts.len()
                invariant
                    i <= ts@.len(),
                    all == byte_strings(ts@),
                    byte_strings(out@) == with_tokens(Seq::empty(), all.subrange(0, i as int)),
                decreases ts@.len() - i,
            {
                let t = crate::engine::copy_bytes(&ts[i]);
                add_token(&mut out, t);
                i = i + 1;
                assert(all.subrange(0, i as int).drop_last() =~= all.subrange(0, i - 1));
            }
            assert(all.subrange(0, ts@.len() as int) =~= all);
            Some(out)
        },
    }
}

} // verus!
