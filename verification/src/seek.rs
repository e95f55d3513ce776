//! The seek position: reading `--seek-ms=<n>` from the command line and
//! turning milliseconds into native frames.

use vstd::prelude::*;

verus! {

/// The native frame that a seek to `seek_ms` milliseconds lands on at `rate`
/// frames per second (rounded down, truncated to `u64` as the original cast
/// does).
pub open spec fn spec_seek_target_frames(seek_ms: u64, rate: u32) -> u64 {
    ((seek_ms as int * rate as int) / 1000) as u64
}

/// The native frame that a seek to `seek_ms` milliseconds lands on.
pub fn seek_target_frames(seek_ms: u64, rate: u32) -> (r: u64)
    ensures
        r == spec_seek_target_frames(seek_ms, rate),
{
    let a = seek_ms as u128;
    let b = rate as u128;
    assert(a * b <= 0xffff_ffff_ffff_ffff * 0xffff_ffffu128) by (nonlinear_arith)
        requires
            a <= 0xffff_ffff_ffff_ffff,
            b <= 0xffff_ffff,
    ;
    ((a * b) / 1000) as u64
}

/// The value of the decimal digits `s` (most significant first).
pub open spec fn digits_value(s: Seq<u8>) -> int
    decreases s.len(),
{
    if s.len() == 0 {
        0
    } else {
        digits_value(s.drop_last()) * 10 + (s.last() - 0x30)
    }
}

/// Every byte of `s` is an ASCII digit.
pub open spec fn all_digits(s: Seq<u8>) -> bool {
    forall|i: int| 0 <= i < s.len() ==> 0x30 <= #[trigger] s[i] <= 0x39
}

/// What `u64::from_str` accepts: an optional `+`, then one or more ASCII
/// digits whose value fits a `u64`.
pub open spec fn spec_parse_u64(s: Seq<u8>) -> Option<u64> {
    let d = if s.len() > 0 && s[0] == 0x2b { s.drop_first() } else { s };
    if d.len() > 0 && all_digits(d) && digits_value(d) <= u64::MAX {
        Some(digits_value(d) as u64)
    } else {
        None
    }
}

proof fn lemma_digits_monotone(d: Seq<u8>, i: int, j: int)
    requires
        0 <= i <= j <= d.len(),
        all_digits(d),
    ensures
        digits_value(d.take(i)) <= digits_value(d.take(j)),
        digits_value(d.take(j)) >= 0,
    decreases j,
{
    if j > 0 {
        assert(d.take(j).drop_last() == d.take(j - 1));
        assert(d.take(j).last() == d[j - 1]);
        assert(0x30 <= d[j - 1]);
        if i < j {
            lemma_digits_monotone(d, i, j - 1);
        } else {
            lemma_digits_monotone(d, j - 1, j - 1);
        }
    } else {
        assert(d.take(0) == Seq::<u8>::empty());
    }
}

/// Parses a decimal `u64` as `u64::from_str` does.
pub fn parse_u64(s: &[u8]) -> (r: Option<u64>)
    ensures
        r == spec_parse_u64(s@),
{
    let start: usize = if s.len() > 0 && s[0] == 0x2b { 1 } else { 0 };
    let ghost d = if s@.len() > 0 && s@[0] == 0x2b { s@.drop_first() } else { s@ };
    assert(d == s@.skip(start as int));
    if start >= s.len() {
        return None;
    }
    let mut value: u64 = 0;
    let mut i = start;
    while i < s.len()
        invariant
            start <= i <= s.len(),
            d == s@.skip(start as int),
            d == (if s@.len() > 0 && s@[0] == 0x2b { s@.drop_first() } else { s@ }),
            all_digits(d.take(i - start)),
            value as int == digits_value(d.take(i - start)),
        decreases s.len() - i,
    {
        let c = s[i];
        let ghost k = i - start;
        assert(d[k] == c);
        if c < 0x30 || c > 0x39 {
            assert(!all_digits(d));
            return None;
        }
        assert(d.take(k + 1).drop_last() == d.take(k));
        assert(all_digits(d.take(k + 1))) by {
            assert forall|x: int| 0 <= x < k + 1 implies 0x30 <= #[trigger] d.take(k + 1)[x] <= 0x39 by {
                if x < k {
                    assert(d.take(k + 1)[x] == d.take(k)[x]);
                }
            }
        }
        let next = match value.checked_mul(10) {
            Some(m) => m.checked_add((c - 0x30) as u64),
            None => None,
        };
        match next {
            Some(v) => {
                value = v;
            },
            None => {
                proof {
                    if all_digits(d) {
                        lemma_digits_monotone(d, k + 1, d.len() as int);
                        assert(d.take(d.len() as int) == d);
                    }
                }
                return None;
            },
        }
        i = i + 1;
    }
    assert(d.take(d.len() as int) == d);
    Some(value)
}

/// The option that sets the seek position.
pub open spec fn seek_prefix() -> Seq<u8> {
    seq![0x2du8, 0x2d, 0x73, 0x65, 0x65, 0x6b, 0x2d, 0x6d, 0x73, 0x3d]
}

/// The seek position an argument gives: `--seek-ms=` followed by what
/// `u64::from_str` accepts.
pub open spec fn arg_seek_ms(a: Seq<u8>) -> Option<u64> {
    if a.len() >= 10 && a.take(10) == seek_prefix() {
        spec_parse_u64(a.skip(10))
    } else {
        None
    }
}

/// The seek position of the first argument that gives one, or 0.
pub open spec fn spec_seek_ms(args: Seq<Seq<u8>>) -> u64
    decreases args.len(),
{
    if args.len() == 0 {
        0
    } else {
        match arg_seek_ms(args[0]) {
            Some(v) => v,
            None => spec_seek_ms(args.drop_first()),
        }
    }
}

/// The seek position an argument gives, if any.
fn arg_seek(a: &Vec<u8>) -> (r: Option<u64>)
    ensures
        r == arg_seek_ms(a@),
{
    if a.len() >= 10 && a[0] == 0x2d && a[1] == 0x2d && a[2] == 0x73 && a[3] == 0x65 && a[4] == 0x65
        && a[5] == 0x6b && a[6] == 0x2d && a[7] == 0x6d && a[8] == 0x73 && a[9] == 0x3d {
        assert(a@.take(10) =~= seek_prefix());
        let rest = vstd::slice::slice_subrange(a.as_slice(), 10, a.len());
        assert(rest@ == a@.skip(10));
        parse_u64(rest)
    } else {
        proof {
            if a@.len() >= 10 && a@.take(10) == seek_prefix() {
                assert(a@.take(10)[0] == a@[0]);
                assert(a@.take(10)[1] == a@[1]);
                assert(a@.take(10)[2] == a@[2]);
                assert(a@.take(10)[3] == a@[3]);
                assert(a@.take(10)[4] == a@[4]);
                assert(a@.take(10)[5] == a@[5]);
                assert(a@.take(10)[6] == a@[6]);
                assert(a@.take(10)[7] == a@[7]);
                assert(a@.take(10)[8] == a@[8]);
                assert(a@.take(10)[9] == a@[9]);
            }
        }
        None
    }
}

/// The seek position in milliseconds that the command-line arguments `args`
/// (without the program name) give: that of the first `--seek-ms=<n>` whose
/// `<n>` parses, else 0.
pub fn seek_ms_from_args(args: &Vec<Vec<u8>>) -> (r: u64)
    ensures
        r == spec_seek_ms(args.deep_view()),
{
    let mut i: usize = 0;
    assert(args.deep_view().skip(0) =~= args.deep_view());
    while i < args.len()
        invariant
            i <= args.len(),
            spec_seek_ms(args.deep_view()) == spec_seek_ms(args.deep_view().skip(i as int)),
        decreases args.len() - i,
    {
        let ghost rest = args.deep_view().skip(i as int);
        assert(rest[0] == args[i as int]@);
        assert(rest.drop_first() == args.deep_view().skip(i + 1));
        match arg_seek(&args[i]) {
            Some(v) => {
                return v;
            },
            None => {},
        }
        i = i + 1;
    }
    0
}

} // verus!
