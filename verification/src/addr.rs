//! Bluetooth device addresses as plain values: six octets, written as six
//! colon-separated groups of one or two hex digits.

use vstd::prelude::*;

use crate::text::{eq_p, find_char, first_where, lemma_first_where_shift, strs_view};

verus! {

/// A device address held as its six octets.
#[derive(Clone, Debug)]
pub struct BtAddress {
    pub octets: Vec<u8>,
}

impl BtAddress {
    pub open spec fn wf(&self) -> bool {
        self.octets@.len() == 6
    }
}

/// The value of a hex digit, `-1` for any other character.
pub open spec fn hex_val(c: char) -> int {
    let n = c as int;
    if '0' as int <= n <= '9' as int {
        n - '0' as int
    } else if 'a' as int <= n <= 'f' as int {
        n - 'a' as int + 10
    } else if 'A' as int <= n <= 'F' as int {
        n - 'A' as int + 10
    } else {
        -1
    }
}

pub open spec fn is_hex_digit(c: char) -> bool {
    hex_val(c) >= 0
}

/// Split at every occurrence of `c`: the pieces between the separators, in
/// order, empty pieces kept.
pub open spec fn split_all(s: Seq<char>, c: char) -> Seq<Seq<char>>
    decreases s.len(),
{
    let j = first_where(s, 0, eq_p(c));
    if 0 <= j && j < s.len() {
        seq![s.subrange(0, j)] + split_all(s.subrange(j + 1, s.len() as int), c)
    } else {
        seq![s]
    }
}

/// A group of one or two hex digits.
pub open spec fn valid_group(g: Seq<char>) -> bool {
    (g.len() == 1 || g.len() == 2) && (forall|i: int| 0 <= i < g.len() ==> is_hex_digit(g[i]))
}

pub open spec fn group_val(g: Seq<char>) -> int {
    if g.len() == 1 {
        hex_val(g[0])
    } else {
        16 * hex_val(g[0]) + hex_val(g[1])
    }
}

/// A well-formed address text: exactly six groups, each one or two hex
/// digits.
pub open spec fn addr_valid(s: Seq<char>) -> bool {
    let gs = split_all(s, ':');
    gs.len() == 6 && (forall|i: int| 0 <= i < 6 ==> valid_group(#[trigger] gs[i]))
}

pub open spec fn addr_octet(s: Seq<char>, i: int) -> int {
    group_val(split_all(s, ':')[i])
}

fn hex_digit_val(c: char) -> (r: i32)
    ensures
        r as int == hex_val(c),
        -1 <= r < 16,
{
    let n = c as u32;
    if n >= 48 && n <= 57 {
        (n - 48) as i32
    } else if n >= 97 && n <= 102 {
        (n - 97 + 10) as i32
    } else if n >= 65 && n <= 70 {
        (n - 65 + 10) as i32
    } else {
        -1
    }
}

/// Split the text at every colon, as `split_all` describes.
fn split_colons(s: &str) -> (r: Vec<String>)
    ensures
        strs_view(r@) == split_all(s@, ':'),
{
    let slen = s.unicode_len();
    let mut out: Vec<String> = Vec::new();
    let mut pos: usize = 0;
    let mut finished: bool = false;
    proof {
        assert(s@.subrange(0, slen as int) =~= s@);
        assert(strs_view(out@) + split_all(s@, ':') =~= split_all(s@, ':'));
    }
    while !finished
        invariant
            slen == s@.len(),
            pos <= slen,
            !finished ==> split_all(s@, ':') == strs_view(out@) + split_all(
                s@.subrange(pos as int, slen as int),
                ':',
            ),
            finished ==> strs_view(out@) == split_all(s@, ':'),
        decreases slen - pos + (if finished { 0int } else { 1int }),
    {
        let j = find_char(s, pos, ':');
        let ghost suffix = s@.subrange(pos as int, slen as int);
        proof {
            lemma_first_where_shift(s@, pos as int, eq_p(':'));
        }
        let piece = s.substring_char(pos, j).to_owned();
        proof {
            assert(piece@ =~= suffix.subrange(0, j - pos));
        }
        out.push(piece);
        if j == slen {
            proof {
                assert(first_where(suffix, 0, eq_p(':')) == suffix.len());
                assert(split_all(suffix, ':') =~= seq![suffix]);
                assert(piece@ =~= suffix);
                assert(strs_view(out@) =~= split_all(s@, ':'));
            }
            finished = true;
        } else {
            proof {
                let jj = (j - pos) as int;
                assert(0 <= jj && jj < suffix.len());
                assert(split_all(suffix, ':') == seq![suffix.subrange(0, jj)] + split_all(
                    suffix.subrange(jj + 1, suffix.len() as int),
                    ':',
                ));
                assert(suffix.subrange(jj + 1, suffix.len() as int) =~= s@.subrange(
                    j + 1,
                    slen as int,
                ));
                assert(strs_view(out@) + split_all(s@.subrange(j + 1, slen as int), ':')
                    =~= split_all(s@, ':'));
            }
            pos = j + 1;
        }
    }
    out
}

/// Read a group of one or two hex digits; its value, or nothing when the
/// group is not of that form.
fn parse_group(g: &str) -> (r: Option<u8>)
    ensures
        r is Some <==> valid_group(g@),
        r matches Some(v) ==> v as int == group_val(g@),
{
    let glen = g.unicode_len();
    if glen == 1 {
        let v = hex_digit_val(g.get_char(0));
        if v >= 0 {
            Some(v as u8)
        } else {
            None
        }
    } else if glen == 2 {
        let v0 = hex_digit_val(g.get_char(0));
        let v1 = hex_digit_val(g.get_char(1));
        if v0 >= 0 && v1 >= 0 {
            Some((16 * v0 + v1) as u8)
        } else {
            None
        }
    } else {
        None
    }
}

/// Parse a textual device address into its octets: accepted exactly when the
/// text is six colon-separated groups of one or two hex digits.
pub fn parse_address(address: &str) -> (r: Result<BtAddress, String>)
    ensures
        r is Ok <==> addr_valid(address@),
        r matches Ok(a) ==> a.wf() && (forall|i: int|
            0 <= i < 6 ==> #[trigger] a.octets@[i] as int == addr_octet(address@, i)),
        r matches Err(e) ==> e@ == "Invalid Bluetooth Address"@,
{
    let groups = split_colons(address);
    if groups.len() != 6 {
        return Err(String::from_str("Invalid Bluetooth Address"));
    }
    let mut octets: Vec<u8> = Vec::new();
    let mut i: usize = 0;
    while i < 6
        invariant
            groups@.len() == 6,
            strs_view(groups@) == split_all(address@, ':'),
            i <= 6,
            octets@.len() == i,
            forall|k: int| 0 <= k < i ==> valid_group(#[trigger] strs_view(groups@)[k]),
            forall|k: int| 0 <= k < i ==> #[trigger] octets@[k] as int == addr_octet(address@, k),
        decreases 6 - i,
    {
        match parse_group(groups[i].as_str()) {
            Some(v) => {
                octets.push(v);
            },
            None => {
                proof {
                    assert(!valid_group(strs_view(groups@)[i as int]));
                }
                return Err(String::from_str("Invalid Bluetooth Address"));
            },
        }
        i += 1;
    }
    Ok(BtAddress { octets })
}

} // verus!
