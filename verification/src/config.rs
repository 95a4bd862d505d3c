//! The mining key configuration: an `m`-of-`n` sharing weight together with
//! the public keys it covers, and the parser for its textual form
//! `<share>,<m>:<key1>,<key2>,...`.

use vstd::prelude::*;

verus! {

/// One mining key configuration entry.
#[derive(Debug, Clone)]
pub struct MiningKeyConfig {
    pub share: u64,
    pub m: u64,
    pub keys: Vec<String>,
}

/// The mathematical shape of a configuration entry.
pub struct MiningKeyConfigView {
    pub share: u64,
    pub m: u64,
    pub keys: Seq<Seq<char>>,
}

impl View for MiningKeyConfig {
    type V = MiningKeyConfigView;

    open spec fn view(&self) -> MiningKeyConfigView {
        MiningKeyConfigView {
            share: self.share,
            m: self.m,
            keys: self.keys@.map_values(|k: String| k@),
        }
    }
}

/// Whether `c` is a decimal digit.
pub open spec fn is_digit(c: char) -> bool {
    48 <= c as u32 && c as u32 <= 57
}

/// The value of a decimal digit.
pub open spec fn digit_val(c: char) -> int {
    c as u32 - 48
}

/// Whether a string is digits throughout.
pub open spec fn all_digits(s: Seq<char>) -> bool {
    forall|i: int| 0 <= i < s.len() ==> is_digit(#[trigger] s[i])
}

/// The number a digit string denotes, read in base ten.
pub open spec fn digits_val(s: Seq<char>) -> int
    decreases s.len(),
{
    if s.len() == 0 {
        0
    } else {
        digits_val(s.drop_last()) * 10 + digit_val(s.last())
    }
}

/// Whether a string denotes an unsigned 64-bit number: non-empty, digits
/// throughout, and within the bound.
pub open spec fn is_u64_digits(s: Seq<char>) -> bool {
    s.len() > 0 && all_digits(s) && digits_val(s) <= u64::MAX
}

/// How often `c` occurs in `s`.
pub open spec fn count_char(s: Seq<char>, c: char) -> nat
    decreases s.len(),
{
    if s.len() == 0 {
        0
    } else {
        count_char(s.drop_last(), c) + if s.last() == c {
            1nat
        } else {
            0nat
        }
    }
}

/// The first position of `c` in `s`, or the length of `s` when `c` is
/// absent.
pub open spec fn find_char(s: Seq<char>, c: char) -> int
    decreases s.len(),
{
    if s.len() == 0 {
        0
    } else if s[0] == c {
        0
    } else {
        1 + find_char(s.drop_first(), c)
    }
}

proof fn lemma_find_char_le(s: Seq<char>, c: char)
    ensures
        0 <= find_char(s, c) <= s.len(),
    decreases s.len(),
{
    if s.len() > 0 && s[0] != c {
        lemma_find_char_le(s.drop_first(), c);
    }
}

/// `find_char` returns the position whose prefix is free of `c`.
proof fn lemma_find_char_at(s: Seq<char>, c: char, k: int)
    requires
        0 <= k <= s.len(),
        forall|j: int| 0 <= j < k ==> s[j] != c,
        k < s.len() ==> s[k] == c,
    ensures
        find_char(s, c) == k,
    decreases s.len(),
{
    if s.len() > 0 && k > 0 {
        let rest = s.drop_first();
        assert(forall|j: int| 0 <= j < k - 1 ==> rest[j] == s[j + 1] && rest[j] != c);
        lemma_find_char_at(rest, c, k - 1);
    }
}

/// The pieces of `s` between the occurrences of `c`: always one piece more
/// than there are occurrences, so the result is never empty.
pub open spec fn split_on(s: Seq<char>, c: char) -> Seq<Seq<char>>
    decreases s.len(),
    via split_on_decreases
{
    let k = find_char(s, c);
    if k == s.len() {
        seq![s]
    } else {
        seq![s.take(k)] + split_on(s.skip(k + 1), c)
    }
}

#[via_fn]
proof fn split_on_decreases(s: Seq<char>, c: char) {
    lemma_find_char_le(s, c);
}

/// The message a number parse error carries: the empty string, a stray
/// character, and a too-large number are told apart.
pub open spec fn int_error_msg(s: Seq<char>) -> Seq<char> {
    if s.len() == 0 {
        "cannot parse integer from empty string"@
    } else if !all_digits(s) {
        "invalid digit found in string"@
    } else {
        "number too large to fit in target type"@
    }
}

/// A digit string's value only grows as digits are appended.
proof fn lemma_digits_val_prefix(s: Seq<char>, k: int)
    requires
        all_digits(s),
        0 <= k <= s.len(),
    ensures
        0 <= digits_val(s.take(k)) <= digits_val(s),
    decreases s.len(),
{
    if s.len() == 0 {
    } else if k == s.len() {
        assert(s.take(k) =~= s);
        lemma_digits_val_prefix(s.drop_last(), k - 1);
    } else {
        let shorter = s.drop_last();
        assert(all_digits(shorter));
        assert(shorter.take(k) =~= s.take(k));
        lemma_digits_val_prefix(shorter, k);
    }
}

/// Reads an unsigned 64-bit number from its base-ten form: digits and
/// nothing else, rejecting the empty string and values past the bound.
pub fn parse_u64(s: &str) -> (r: Result<u64, String>)
    ensures
        (r is Ok) == is_u64_digits(s@),
        r matches Ok(v) ==> v == digits_val(s@),
        r matches Err(e) ==> e@ == int_error_msg(s@),
{
    let n = s.unicode_len();
    if n == 0 {
        proof {
            assert(!is_u64_digits(s@));
        }
        return Err(String::from_str("cannot parse integer from empty string"));
    }

    // First pass: every character must be a digit.
    let mut i: usize = 0;
    while i < n
        invariant
            i <= n,
            n == s@.len(),
            forall|j: int| 0 <= j < i ==> is_digit(#[trigger] s@[j]),
        decreases n - i,
    {
        let c = s.get_char(i);
        let code = c as u32;
        if code < 48 || code > 57 {
            proof {
                assert(!all_digits(s@));
            }
            return Err(String::from_str("invalid digit found in string"));
        }
        i = i + 1;
    }
    proof {
        assert(all_digits(s@));
    }

    // Second pass: accumulate, watching the 64-bit bound.
    let mut acc: u64 = 0;
    let mut i: usize = 0;
    proof {
        assert(s@.take(0) =~= Seq::<char>::empty());
    }
    while i < n
        invariant
            i <= n,
            n == s@.len(),
            all_digits(s@),
            acc == digits_val(s@.take(i as int)),
        decreases n - i,
    {
        let c = s.get_char(i);
        let d: u64 = ((c as u32) - 48) as u64;
        proof {
            assert(s@.take(i + 1).drop_last() =~= s@.take(i as int));
            assert(s@.take(i + 1).last() == s@[i as int]);
            vstd::arithmetic::div_mod::lemma_fundamental_div_mod((u64::MAX - d) as int, 10);
        }
        if acc > (u64::MAX - d) / 10 {
            proof {
                assert(digits_val(s@.take(i + 1)) > u64::MAX);
                lemma_digits_val_prefix(s@, i + 1);
                assert(!is_u64_digits(s@));
            }
            return Err(String::from_str("number too large to fit in target type"));
        }
        acc = acc * 10 + d;
        i = i + 1;
    }
    proof {
        assert(s@.take(n as int) =~= s@);
    }
    Ok(acc)
}

impl MiningKeyConfig {
    /// Reads a configuration entry from its textual form
    /// `<share>,<m>:<key1>,<key2>,...,<keyK>`: exactly one colon, exactly
    /// one comma before it, two numbers, and the keys split on commas after
    /// it (a key may be empty; there is always at least one).
    pub fn from_str(s: &str) -> (r: Result<MiningKeyConfig, String>)
        ensures
            ({
                let sv = s@;
                let head = sv.take(find_char(sv, ':'));
                let tail = sv.skip(find_char(sv, ':') + 1);
                let share_s = head.take(find_char(head, ','));
                let m_s = head.skip(find_char(head, ',') + 1);
                &&& (r is Ok) == (count_char(sv, ':') == 1 && count_char(head, ',') == 1
                    && is_u64_digits(share_s) && is_u64_digits(m_s))
                &&& (r matches Ok(cfg) ==> {
                    &&& cfg.share == digits_val(share_s)
                    &&& cfg.m == digits_val(m_s)
                    &&& cfg@.keys == split_on(tail, ',')
                })
                &&& (count_char(sv, ':') != 1 ==> (r matches Err(e)
                    && e@ == "Invalid format. Expected 'share,m:key1,key2,key3'"@))
                &&& (count_char(sv, ':') == 1 && count_char(head, ',') != 1 ==> (r matches Err(e)
                    && e@ == "Invalid share,m format"@))
                &&& (count_char(sv, ':') == 1 && count_char(head, ',') == 1 && !is_u64_digits(
                    share_s,
                ) ==> (r matches Err(e) && e@ == int_error_msg(share_s)))
                &&& (count_char(sv, ':') == 1 && count_char(head, ',') == 1 && is_u64_digits(
                    share_s,
                ) && !is_u64_digits(m_s) ==> (r matches Err(e) && e@ == int_error_msg(m_s)))
            }),
    {
        let n = s.unicode_len();
        let colon = scan_for(s, ':');
        if colon.0 != 1 {
            return Err(String::from_str("Invalid format. Expected 'share,m:key1,key2,key3'"));
        }
        let ci = colon.1;
        let head = s.substring_char(0, ci);
        let tail = s.substring_char(ci + 1, n);
        proof {
            assert(head@ =~= s@.take(ci as int));
            assert(tail@ =~= s@.skip(ci + 1));
        }

        let hn = head.unicode_len();
        let comma = scan_for(head, ',');
        if comma.0 != 1 {
            return Err(String::from_str("Invalid share,m format"));
        }
        let mi = comma.1;
        let share_str = head.substring_char(0, mi);
        let m_str = head.substring_char(mi + 1, hn);
        proof {
            assert(share_str@ =~= head@.take(mi as int));
            assert(m_str@ =~= head@.skip(mi + 1));
        }

        let share = match parse_u64(share_str) {
            Ok(v) => v,
            Err(e) => {
                return Err(e);
            },
        };
        let m = match parse_u64(m_str) {
            Ok(v) => v,
            Err(e) => {
                return Err(e);
            },
        };

        let keys = split_keys(tail);
        Ok(MiningKeyConfig { share, m, keys })
    }
}

/// Counts the occurrences of `c` in `s` and finds the first one.
fn scan_for(s: &str, c: char) -> (r: (usize, usize))
    ensures
        r.0 == count_char(s@, c),
        r.1 == find_char(s@, c),
        r.1 <= s@.len(),
        r.0 > 0 ==> r.1 < s@.len(),
{
    let n = s.unicode_len();
    let mut count: usize = 0;
    let mut first: usize = n;
    let mut i: usize = 0;
    proof {
        assert(s@.take(0) =~= Seq::<char>::empty());
    }
    while i < n
        invariant
            i <= n,
            n == s@.len(),
            count <= i,
            count == count_char(s@.take(i as int), c),
            count == 0 ==> first == n && forall|j: int| 0 <= j < i ==> s@[j] != c,
            count > 0 ==> {
                &&& first < i
                &&& s@[first as int] == c
                &&& forall|j: int| 0 <= j < first ==> s@[j] != c
            },
        decreases n - i,
    {
        let ch = s.get_char(i);
        proof {
            assert(s@.take(i + 1).drop_last() =~= s@.take(i as int));
            assert(s@.take(i + 1).last() == s@[i as int]);
        }
        if ch == c {
            if count == 0 {
                first = i;
            }
            count = count + 1;
        }
        i = i + 1;
    }
    proof {
        assert(s@.take(n as int) =~= s@);
        if count == 0 {
            lemma_find_char_at(s@, c, n as int);
        } else {
            lemma_find_char_at(s@, c, first as int);
        }
    }
    (count, first)
}

/// Splits `s` at its commas into owned pieces.
fn split_keys(s: &str) -> (r: Vec<String>)
    ensures
        r@.map_values(|k: String| k@) == split_on(s@, ','),
{
    let n = s.unicode_len();
    let mut keys: Vec<String> = Vec::new();
    let mut start: usize = 0;
    let mut j: usize = 0;
    proof {
        assert(s@.skip(0) =~= s@);
        assert(keys@.map_values(|k: String| k@) + split_on(s@, ',') =~= split_on(s@, ','));
    }
    while j < n
        invariant
            start <= j <= n,
            n == s@.len(),
            forall|j0: int| start <= j0 < j ==> s@[j0] != ',',
            split_on(s@, ',') =~= keys@.map_values(|k: String| k@) + split_on(
                s@.skip(start as int),
                ',',
            ),
        decreases n - j,
    {
        let ch = s.get_char(j);
        if ch == ',' {
            let piece = s.substring_char(start, j).to_owned();
            proof {
                let rest = s@.skip(start as int);
                assert(forall|j0: int|
                    0 <= j0 < j - start ==> rest[j0] == s@[j0 + start] && rest[j0] != ',');
                assert(rest[j - start] == s@[j as int]);
                lemma_find_char_at(rest, ',', j - start);
                assert(rest.take(j - start) =~= s@.subrange(start as int, j as int));
                assert(rest.skip(j - start + 1) =~= s@.skip(j + 1));
                assert((keys@.map_values(|k: String| k@)).push(piece@) =~= keys@.push(
                    piece,
                ).map_values(|k: String| k@));
            }
            keys.push(piece);
            start = j + 1;
        }
        j = j + 1;
    }
    let last_piece = s.substring_char(start, n).to_owned();
    proof {
        let rest = s@.skip(start as int);
        assert(forall|j0: int| 0 <= j0 < n - start ==> rest[j0] == s@[j0 + start] && rest[j0]
            != ',');
        lemma_find_char_at(rest, ',', n - start);
        assert(rest =~= s@.subrange(start as int, n as int));
        assert((keys@.map_values(|k: String| k@)).push(last_piece@) =~= keys@.push(
            last_piece,
        ).map_values(|k: String| k@));
    }
    keys.push(last_piece);
    keys
}

} // verus!
