//! Command-line options of the snapshot test programs: `--step=N` and
//! `--snapshot-at=N`.

use vstd::prelude::*;
use vstd::string::StringSliceAdditionalSpecFns;

use crate::bytes::{decimal, law_decimal_reads_back};
use crate::text::same_text;

verus! {

/// The bytes of `--step=`.
pub open spec fn step_flag() -> Seq<u8> {
    seq![45u8, 45u8, 115u8, 116u8, 101u8, 112u8, 61u8]
}

/// The bytes of `--snapshot-at=`.
pub open spec fn snapshot_flag() -> Seq<u8> {
    seq![45u8, 45u8, 115u8, 110u8, 97u8, 112u8, 115u8, 104u8, 111u8, 116u8, 45u8, 97u8, 116u8, 61u8]
}

/// The bytes of `--snapshot-at` (the flag whose value is the next argument).
pub open spec fn snapshot_word() -> Seq<u8> {
    snapshot_flag().drop_last()
}

/// Whether every byte of `b` is an ASCII digit.
pub open spec fn all_digits(b: Seq<u8>) -> bool {
    forall|i: int| 0 <= i < b.len() ==> 48 <= #[trigger] b[i] <= 57
}

/// The number that the ASCII digits `b` spell in base 10.
pub open spec fn digits_value(b: Seq<u8>) -> nat
    decreases b.len(),
{
    if b.len() == 0 {
        0
    } else {
        digits_value(b.drop_last()) * 10 + (b.last() - 48) as nat
    }
}

/// What `u32::from_str` accepts: an optional `+`, then one or more ASCII
/// digits whose value fits in a `u32`.
pub open spec fn parse_u32_spec(b: Seq<u8>) -> Option<u32> {
    let d = if b.len() > 0 && b[0] == 43u8 {
        b.drop_first()
    } else {
        b
    };
    if d.len() > 0 && all_digits(d) && digits_value(d) <= u32::MAX {
        Some(digits_value(d) as u32)
    } else {
        None
    }
}

/// Parses a decimal `u32` the way `str::parse::<u32>` does.
pub fn parse_u32(s: &[u8]) -> (r: Option<u32>)
    ensures
        r == parse_u32_spec(s@),
{
    let n = s.len();
    let start: usize = if n > 0 && s[0] == 43u8 {
        1
    } else {
        0
    };
    let ghost d = if s@.len() > 0 && s@[0] == 43u8 {
        s@.drop_first()
    } else {
        s@
    };
    assert(d =~= s@.subrange(start as int, n as int));
    if start == n {
        return None;
    }
    let cap: u64 = 0x1_0000_0000;
    let mut acc: u64 = 0;
    let mut ok = true;
    let mut i = start;
    while i < n
        invariant
            n == s@.len(),
            start <= i <= n,
            d == s@.subrange(start as int, n as int),
            cap == 0x1_0000_0000,
            ok == all_digits(s@.subrange(start as int, i as int)),
            ok ==> acc == if digits_value(s@.subrange(start as int, i as int)) < cap {
                digits_value(s@.subrange(start as int, i as int))
            } else {
                cap as nat
            },
            acc <= cap,
        decreases n - i,
    {
        let b = s[i];
        let ghost pre = s@.subrange(start as int, i as int);
        let ghost post = s@.subrange(start as int, i + 1);
        proof {
            assert(post.drop_last() =~= pre);
            assert(post.last() == b);
        }
        if b < 48 || b > 57 {
            ok = false;
            proof {
                assert(!all_digits(post));
            }
        } else {
            proof {
                if ok {
                    assert forall|k: int| 0 <= k < post.len() implies 48 <= #[trigger] post[k] <= 57 by {
                        if k < pre.len() {
                            assert(post[k] == pre[k]);
                        }
                    }
                }
            }
            let next = acc * 10 + (b - 48) as u64;
            acc = if next < cap {
                next
            } else {
                cap
            };
        }
        proof {
            if !ok {
                assert(!all_digits(post)) by {
                    if all_digits(post) {
                        assert forall|k: int| 0 <= k < pre.len() implies 48 <= #[trigger] pre[k] <= 57 by {
                            assert(pre[k] == post[k]);
                        }
                    }
                }
            }
        }
        i = i + 1;
    }
    proof {
        assert(s@.subrange(start as int, n as int) == d);
    }
    if ok && acc < cap {
        Some(acc as u32)
    } else {
        None
    }
}

/// Whether `b` starts with `prefix`.
pub open spec fn has_prefix(b: Seq<u8>, prefix: Seq<u8>) -> bool {
    prefix.len() <= b.len() && b.take(prefix.len() as int) == prefix
}

fn starts_with(b: &[u8], prefix: &[u8]) -> (r: bool)
    ensures
        r == has_prefix(b@, prefix@),
{
    if prefix.len() > b.len() {
        return false;
    }
    let mut i: usize = 0;
    while i < prefix.len()
        invariant
            prefix@.len() <= b@.len(),
            i <= prefix@.len(),
            forall|k: int| 0 <= k < i ==> b@[k] == prefix@[k],
        decreases prefix@.len() - i,
    {
        if b[i] != prefix[i] {
            proof {
                assert(b@.take(prefix@.len() as int)[i as int] != prefix@[i as int]);
            }
            return false;
        }
        i = i + 1;
    }
    proof {
        assert(b@.take(prefix@.len() as int) =~= prefix@);
    }
    true
}

fn suffix_after(b: &[u8], k: usize) -> (r: Vec<u8>)
    requires
        k <= b@.len(),
    ensures
        r@ == b@.skip(k as int),
{
    let mut r: Vec<u8> = Vec::new();
    crate::bytes::extend_range(&mut r, b, k, b.len());
    proof {
        assert(b@.subrange(k as int, b@.len() as int) =~= b@.skip(k as int));
    }
    r
}

/// The bytes of the arguments.
pub open spec fn arg_bytes(args: Seq<String>) -> Seq<Seq<u8>> {
    args.map_values(|a: String| vstd::utf8::encode_utf8(a@))
}

/// Index of the first argument that starts with `flag`, among the first `k`.
pub open spec fn first_with_prefix(args: Seq<Seq<u8>>, flag: Seq<u8>, k: nat) -> Option<int>
    decreases k,
{
    if k == 0 {
        None
    } else {
        match first_with_prefix(args, flag, (k - 1) as nat) {
            Some(i) => Some(i),
            None => if has_prefix(args[k - 1], flag) {
                Some(k - 1)
            } else {
                None
            },
        }
    }
}

/// The text after `flag` in the first argument that starts with it.
pub open spec fn flag_value(args: Seq<Seq<u8>>, flag: Seq<u8>) -> Option<Seq<u8>> {
    match first_with_prefix(args, flag, args.len()) {
        Some(i) => Some(args[i].skip(flag.len() as int)),
        None => None,
    }
}

fn find_flag_value(args: &[String], flag: &[u8]) -> (r: Option<Vec<u8>>)
    ensures
        match r {
            Some(v) => flag_value(arg_bytes(args@), flag@) == Some(v@),
            None => flag_value(arg_bytes(args@), flag@) is None,
        },
{
    let ghost a = arg_bytes(args@);
    let n = args.len();
    let mut i: usize = 0;
    while i < n
        invariant
            n == args@.len(),
            a == arg_bytes(args@),
            a.len() == n,
            i <= n,
            first_with_prefix(a, flag@, i as nat) is None,
        decreases n - i,
    {
        let b = args[i].as_str().as_bytes();
        assert(b@ == a[i as int]);
        if starts_with(b, flag) {
            let v = suffix_after(b, flag.len());
            proof {
                lemma_first_prefix_stable(a, flag@, (i + 1) as nat, n as nat);
            }
            return Some(v);
        }
        i = i + 1;
    }
    None
}

proof fn lemma_first_prefix_stable(args: Seq<Seq<u8>>, flag: Seq<u8>, k: nat, m: nat)
    requires
        k <= m,
        first_with_prefix(args, flag, k) is Some,
    ensures
        first_with_prefix(args, flag, m) == first_with_prefix(args, flag, k),
    decreases m - k,
{
    if k < m {
        lemma_first_prefix_stable(args, flag, k, (m - 1) as nat);
    }
}

/// The step selected by `--step=N`: the first such argument decides; a value
/// that does not parse counts as 1; when `max_step` is given the step is
/// clamped to `1..=max_step`. Without the option the step is 1.
pub open spec fn step_option(args: Seq<Seq<u8>>, max_step: Option<u32>) -> u32 {
    match flag_value(args, step_flag()) {
        Some(v) => {
            let n = match parse_u32_spec(v) {
                Some(n) => n,
                None => 1u32,
            };
            match max_step {
                Some(m) => if n < 1 {
                    1u32
                } else if n > m {
                    m
                } else {
                    n
                },
                None => n,
            }
        },
        None => 1u32,
    }
}

/// The step chosen on the command line (see `step_option`).
pub fn step_from_args(args: &[String], max_step: Option<u32>) -> (r: u32)
    requires
        max_step matches Some(m) ==> m >= 1,
    ensures
        r == step_option(arg_bytes(args@), max_step),
{
    let flag: [u8; 7] = [45, 45, 115, 116, 101, 112, 61];
    assert(flag@ =~= step_flag());
    match find_flag_value(args, &flag) {
        Some(v) => {
            let n = match parse_u32(v.as_slice()) {
                Some(n) => n,
                None => 1,
            };
            match max_step {
                Some(m) => if n < 1 {
                    1
                } else if n > m {
                    m
                } else {
                    n
                },
                None => n,
            }
        },
        None => 1,
    }
}

/// The frame given by `--snapshot-at=N`: the first such argument decides,
/// and a value that does not parse gives `None`.
pub open spec fn snapshot_option(args: Seq<Seq<u8>>) -> Option<u32> {
    match flag_value(args, snapshot_flag()) {
        Some(v) => parse_u32_spec(v),
        None => None,
    }
}

/// The frame at which to write a snapshot and exit, if one was asked for.
pub fn snapshot_from_args(args: &[String]) -> (r: Option<u32>)
    ensures
        r == snapshot_option(arg_bytes(args@)),
{
    let flag: [u8; 14] = [45, 45, 115, 110, 97, 112, 115, 104, 111, 116, 45, 97, 116, 61];
    assert(flag@ =~= snapshot_flag());
    match find_flag_value(args, &flag) {
        Some(v) => parse_u32(v.as_slice()),
        None => None,
    }
}

/// The first `--step=N` argument whose value parses decides the step;
/// without one the step is 1.
pub open spec fn first_parsed_step(args: Seq<Seq<u8>>, k: nat) -> Option<u32>
    decreases k,
{
    if k == 0 {
        None
    } else {
        match first_parsed_step(args, (k - 1) as nat) {
            Some(n) => Some(n),
            None => if has_prefix(args[k - 1], step_flag()) {
                parse_u32_spec(args[k - 1].skip(step_flag().len() as int))
            } else {
                None
            },
        }
    }
}

/// The step of the first `--step=N` argument that parses, or 1.
pub fn first_valid_step(args: &[String]) -> (r: u32)
    ensures
        r == match first_parsed_step(arg_bytes(args@), args@.len()) {
            Some(n) => n,
            None => 1u32,
        },
{
    let flag: [u8; 7] = [45, 45, 115, 116, 101, 112, 61];
    assert(flag@ =~= step_flag());
    let ghost a = arg_bytes(args@);
    let n = args.len();
    let mut i: usize = 0;
    while i < n
        invariant
            n == args@.len(),
            a == arg_bytes(args@),
            a.len() == n,
            flag@ == step_flag(),
            i <= n,
            first_parsed_step(a, i as nat) is None,
        decreases n - i,
    {
        let b = args[i].as_str().as_bytes();
        assert(b@ == a[i as int]);
        if starts_with(b, &flag) {
            let v = suffix_after(b, 7);
            match parse_u32(v.as_slice()) {
                Some(step) => {
                    proof {
                        lemma_first_step_stable(a, (i + 1) as nat, n as nat);
                    }
                    return step;
                },
                None => {},
            }
        }
        i = i + 1;
    }
    1
}

proof fn lemma_first_step_stable(args: Seq<Seq<u8>>, k: nat, m: nat)
    requires
        k <= m,
        first_parsed_step(args, k) is Some,
    ensures
        first_parsed_step(args, m) == first_parsed_step(args, k),
    decreases m - k,
{
    if k < m {
        lemma_first_step_stable(args, k, (m - 1) as nat);
    }
}


/// The frame given by `--snapshot-at=N` or by `--snapshot-at N`, whichever
/// comes first; a value that does not parse, or a missing one, gives `None`.
pub open spec fn snapshot_scan(args: Seq<Seq<u8>>) -> Option<u32>
    decreases args.len(),
{
    if args.len() == 0 {
        None
    } else if has_prefix(args[0], snapshot_flag()) {
        parse_u32_spec(args[0].skip(snapshot_flag().len() as int))
    } else if args[0] == snapshot_word() {
        if args.len() > 1 {
            parse_u32_spec(args[1])
        } else {
            None
        }
    } else {
        snapshot_scan(args.drop_first())
    }
}

/// The snapshot frame, accepting both `--snapshot-at=N` and `--snapshot-at N`.
pub fn snapshot_from_args_or_next(args: &[String]) -> (r: Option<u32>)
    ensures
        r == snapshot_scan(arg_bytes(args@)),
{
    let flag: [u8; 14] = [45, 45, 115, 110, 97, 112, 115, 104, 111, 116, 45, 97, 116, 61];
    let word: [u8; 13] = [45, 45, 115, 110, 97, 112, 115, 104, 111, 116, 45, 97, 116];
    assert(flag@ =~= snapshot_flag());
    assert(word@ =~= snapshot_word());
    let ghost a = arg_bytes(args@);
    let n = args.len();
    let mut i: usize = 0;
    assert(a.skip(0) =~= a);
    while i < n
        invariant
            n == args@.len(),
            a == arg_bytes(args@),
            a.len() == n,
            flag@ == snapshot_flag(),
            word@ == snapshot_word(),
            i <= n,
            snapshot_scan(a) == snapshot_scan(a.skip(i as int)),
        decreases n - i,
    {
        let b = args[i].as_str().as_bytes();
        assert(b@ == a[i as int]);
        assert(a.skip(i as int)[0] == a[i as int]);
        if starts_with(b, &flag) {
            let v = suffix_after(b, 14);
            return parse_u32(v.as_slice());
        }
        if b.len() == 13 && starts_with(b, &word) {
            proof {
                assert(b@ =~= snapshot_word());
            }
            if i + 1 < n {
                let next = args[i + 1].as_str().as_bytes();
                proof {
                    assert(next@ == a[i + 1]);
                    assert(a.skip(i as int)[1] == a[i + 1]);
                }
                return parse_u32(next);
            } else {
                return None;
            }
        }
        proof {
            if b@ == snapshot_word() {
                assert(b@.len() == 13);
                assert(has_prefix(b@, word@)) by {
                    assert(b@.take(13) =~= b@);
                }
            }
            assert(a.skip(i as int).drop_first() =~= a.skip(i + 1));
        }
        i = i + 1;
    }
    proof {
        assert(a.skip(n as int) =~= Seq::<Seq<u8>>::empty());
    }
    None
}

/// With a largest step `m`, the step taken from the arguments always lies
/// in `1..=m`, whatever the arguments say.
pub proof fn law_step_in_range(args: Seq<Seq<u8>>, m: u32)
    requires
        m >= 1,
    ensures
        1 <= step_option(args, Some(m)) <= m,
{
}

/// The drawing steps of the tab rendering test program, selected with
/// `--step N` for `N` from 1 to 8.
#[derive(Debug, Clone, Copy, PartialEq, Eq, Structural)]
pub enum TabStep {
    Fill,
    Rounded,
    Gradient,
    Border,
    Glow,
    TopOnly,
    BottomOnly,
    NoLeftRight,
}

/// The step named by the text `n` ("1" to "8"); anything else is `Fill`.
pub open spec fn tab_step_named(n: Seq<char>) -> TabStep {
    if n == "2"@ {
        TabStep::Rounded
    } else if n == "3"@ {
        TabStep::Gradient
    } else if n == "4"@ {
        TabStep::Border
    } else if n == "5"@ {
        TabStep::Glow
    } else if n == "6"@ {
        TabStep::TopOnly
    } else if n == "7"@ {
        TabStep::BottomOnly
    } else if n == "8"@ {
        TabStep::NoLeftRight
    } else {
        TabStep::Fill
    }
}

/// The tab test's step: the first argument after the program name must be
/// `--step` and the next one the step's number; otherwise `Fill`.
pub open spec fn tab_step_option(args: Seq<String>) -> TabStep {
    if args.len() >= 3 && args[1]@ == "--step"@ {
        tab_step_named(args[2]@)
    } else {
        TabStep::Fill
    }
}

fn tab_step_of(n: &str) -> (r: TabStep)
    ensures
        r == tab_step_named(n@),
{
    if same_text(n, "2") {
        TabStep::Rounded
    } else if same_text(n, "3") {
        TabStep::Gradient
    } else if same_text(n, "4") {
        TabStep::Border
    } else if same_text(n, "5") {
        TabStep::Glow
    } else if same_text(n, "6") {
        TabStep::TopOnly
    } else if same_text(n, "7") {
        TabStep::BottomOnly
    } else if same_text(n, "8") {
        TabStep::NoLeftRight
    } else {
        TabStep::Fill
    }
}

/// The tab test's step from the command line (program name first).
pub fn tab_step_from_args(args: &[String]) -> (r: TabStep)
    ensures
        r == tab_step_option(args@),
{
    if args.len() >= 3 && same_text(args[1].as_str(), "--step") {
        tab_step_of(args[2].as_str())
    } else {
        TabStep::Fill
    }
}

/// Parsing reads back what is written: the decimal digits of any `u32`
/// parse to that number, and a leading `+` is allowed; a text with a byte
/// that is not a digit after the optional `+` does not parse.
pub proof fn law_parse_reads_decimal(n: u32, b: Seq<u8>)
    ensures
        parse_u32_spec(decimal(n as nat)) == Some(n),
        parse_u32_spec(seq![43u8] + decimal(n as nat)) == Some(n),
        (exists|i: int| 0 <= i < b.len() && (i > 0 || b[0] != 43u8) && !(48 <= #[trigger] b[i] <= 57))
            ==> parse_u32_spec(b) is None,
{
    law_decimal_reads_back(n as nat);
    let d = decimal(n as nat);
    assert(48 <= d[0] <= 57);
    assert((seq![43u8] + d).drop_first() =~= d);
    if exists|i: int| 0 <= i < b.len() && (i > 0 || b[0] != 43u8) && !(48 <= #[trigger] b[i] <= 57) {
        let i = choose|i: int| 0 <= i < b.len() && (i > 0 || b[0] != 43u8) && !(48 <= #[trigger] b[i] <= 57);
        if b.len() > 0 && b[0] == 43u8 {
            assert(b.drop_first()[i - 1] == b[i]);
        }
    }
}

} // verus!
