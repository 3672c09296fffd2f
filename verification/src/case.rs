//! The identifier spellings the code-generating macros derive from a Rust identifier:
//! snake case, upper case and title case. Word boundaries are underscores and the
//! places where a lowercase letter or a digit is followed by an uppercase letter. Case
//! is that of ASCII letters; other characters are kept as they are.

use vstd::prelude::*;

use crate::plan::seq_view;

verus! {

pub open spec fn is_upper(c: char) -> bool {
    'A' <= c <= 'Z'
}

pub open spec fn is_lower(c: char) -> bool {
    'a' <= c <= 'z'
}

pub open spec fn is_digit(c: char) -> bool {
    '0' <= c <= '9'
}

/// The lowercase of an ASCII uppercase letter; any other character unchanged.
pub open spec fn ascii_lower(c: char) -> char {
    if is_upper(c) {
        ((c as u32) + 32) as char
    } else {
        c
    }
}

/// The uppercase of an ASCII lowercase letter; any other character unchanged.
pub open spec fn ascii_upper(c: char) -> char {
    if is_lower(c) {
        ((c as u32) - 32) as char
    } else {
        c
    }
}

/// Where the scan of an identifier stands: the words completed so far, the word being
/// read, and whether its last character was a lowercase letter or a digit.
pub struct Scan {
    pub done: Seq<Seq<char>>,
    pub current: Seq<char>,
    pub prev_lower: bool,
}

pub open spec fn scan_step(st: Scan, c: char) -> Scan {
    if c == '_' {
        Scan {
            done: if st.current.len() > 0 { st.done.push(st.current) } else { st.done },
            current: Seq::empty(),
            prev_lower: false,
        }
    } else {
        let split = is_upper(c) && st.prev_lower && st.current.len() > 0;
        Scan {
            done: if split { st.done.push(st.current) } else { st.done },
            current: if split { seq![c] } else { st.current.push(c) },
            prev_lower: is_lower(c) || is_digit(c),
        }
    }
}

pub open spec fn scan(s: Seq<char>) -> Scan
    decreases s.len(),
{
    if s.len() == 0 {
        Scan { done: Seq::empty(), current: Seq::empty(), prev_lower: false }
    } else {
        scan_step(scan(s.drop_last()), s.last())
    }
}

/// The words of an identifier, in order, none of them empty.
pub open spec fn words(s: Seq<char>) -> Seq<Seq<char>> {
    let st = scan(s);
    if st.current.len() > 0 {
        st.done.push(st.current)
    } else {
        st.done
    }
}

/// The words joined with `sep` between consecutive ones.
pub open spec fn joined(ws: Seq<Seq<char>>, sep: Seq<char>) -> Seq<char>
    decreases ws.len(),
{
    if ws.len() == 0 {
        Seq::empty()
    } else if ws.len() == 1 {
        ws[0]
    } else {
        joined(ws.drop_last(), sep) + sep + ws.last()
    }
}

pub open spec fn lower_word(w: Seq<char>) -> Seq<char> {
    w.map_values(|c: char| ascii_lower(c))
}

pub open spec fn upper_word(w: Seq<char>) -> Seq<char> {
    w.map_values(|c: char| ascii_upper(c))
}

/// A word with its first letter in uppercase and the others in lowercase.
pub open spec fn title_word(w: Seq<char>) -> Seq<char> {
    if w.len() == 0 {
        w
    } else {
        seq![ascii_upper(w[0])] + lower_word(w.subrange(1, w.len() as int))
    }
}

/// `SrcPort` and `src_port` both give `src_port`.
pub open spec fn snake_case(s: Seq<char>) -> Seq<char> {
    joined(words(s).map_values(|w: Seq<char>| lower_word(w)), "_"@)
}

/// `SrcPort` and `src_port` both give `SRC_PORT`.
pub open spec fn upper_case(s: Seq<char>) -> Seq<char> {
    joined(words(s).map_values(|w: Seq<char>| upper_word(w)), "_"@)
}

/// `SrcPort` and `src_port` both give `Src Port`.
pub open spec fn title_case(s: Seq<char>) -> Seq<char> {
    joined(words(s).map_values(|w: Seq<char>| title_word(w)), " "@)
}

fn lower_letter(c: char) -> (r: &'static str)
    requires
        is_upper(c),
    ensures
        r@ == seq![ascii_lower(c)],
{
    match c {
        'A' => {
            proof {
                reveal_strlit("a");
            }
            "a"
        },
        'B' => {
            proof {
                reveal_strlit("b");
            }
            "b"
        },
        'C' => {
            proof {
                reveal_strlit("c");
            }
            "c"
        },
        'D' => {
            proof {
                reveal_strlit("d");
            }
            "d"
        },
        'E' => {
            proof {
                reveal_strlit("e");
            }
            "e"
        },
        'F' => {
            proof {
                reveal_strlit("f");
            }
            "f"
        },
        'G' => {
            proof {
                reveal_strlit("g");
            }
            "g"
        },
        'H' => {
            proof {
                reveal_strlit("h");
            }
            "h"
        },
        'I' => {
            proof {
                reveal_strlit("i");
            }
            "i"
        },
        'J' => {
            proof {
                reveal_strlit("j");
            }
            "j"
        },
        'K' => {
            proof {
                reveal_strlit("k");
            }
            "k"
        },
        'L' => {
            proof {
                reveal_strlit("l");
            }
            "l"
        },
        'M' => {
            proof {
                reveal_strlit("m");
            }
            "m"
        },
        'N' => {
            proof {
                reveal_strlit("n");
            }
            "n"
        },
        'O' => {
            proof {
                reveal_strlit("o");
            }
            "o"
        },
        'P' => {
            proof {
                reveal_strlit("p");
            }
            "p"
        },
        'Q' => {
            proof {
                reveal_strlit("q");
            }
            "q"
        },
        'R' => {
            proof {
                reveal_strlit("r");
            }
            "r"
        },
        'S' => {
            proof {
                reveal_strlit("s");
            }
            "s"
        },
        'T' => {
            proof {
                reveal_strlit("t");
            }
            "t"
        },
        'U' => {
            proof {
                reveal_strlit("u");
            }
            "u"
        },
        'V' => {
            proof {
                reveal_strlit("v");
            }
            "v"
        },
        'W' => {
            proof {
                reveal_strlit("w");
            }
            "w"
        },
        'X' => {
            proof {
                reveal_strlit("x");
            }
            "x"
        },
        'Y' => {
            proof {
                reveal_strlit("y");
            }
            "y"
        },
        'Z' => {
            proof {
                reveal_strlit("z");
            }
            "z"
        },
        _ => {
            proof {
                reveal_strlit("z");
            }
            "z"
        },
    }
}

fn upper_letter(c: char) -> (r: &'static str)
    requires
        is_lower(c),
    ensures
        r@ == seq![ascii_upper(c)],
{
    match c {
        'a' => {
            proof {
                reveal_strlit("A");
            }
            "A"
        },
        'b' => {
            proof {
                reveal_strlit("B");
            }
            "B"
        },
        'c' => {
            proof {
                reveal_strlit("C");
            }
            "C"
        },
        'd' => {
            proof {
                reveal_strlit("D");
            }
            "D"
        },
        'e' => {
            proof {
                reveal_strlit("E");
            }
            "E"
        },
        'f' => {
            proof {
                reveal_strlit("F");
            }
            "F"
        },
        'g' => {
            proof {
                reveal_strlit("G");
            }
            "G"
        },
        'h' => {
            proof {
                reveal_strlit("H");
            }
            "H"
        },
        'i' => {
            proof {
                reveal_strlit("I");
            }
            "I"
        },
        'j' => {
            proof {
                reveal_strlit("J");
            }
            "J"
        },
        'k' => {
            proof {
                reveal_strlit("K");
            }
            "K"
        },
        'l' => {
            proof {
                reveal_strlit("L");
            }
            "L"
        },
        'm' => {
            proof {
                reveal_strlit("M");
            }
            "M"
        },
        'n' => {
            proof {
                reveal_strlit("N");
            }
            "N"
        },
        'o' => {
            proof {
                reveal_strlit("O");
            }
            "O"
        },
        'p' => {
            proof {
                reveal_strlit("P");
            }
            "P"
        },
        'q' => {
            proof {
                reveal_strlit("Q");
            }
            "Q"
        },
        'r' => {
            proof {
                reveal_strlit("R");
            }
            "R"
        },
        's' => {
            proof {
                reveal_strlit("S");
            }
            "S"
        },
        't' => {
            proof {
                reveal_strlit("T");
            }
            "T"
        },
        'u' => {
            proof {
                reveal_strlit("U");
            }
            "U"
        },
        'v' => {
            proof {
                reveal_strlit("V");
            }
            "V"
        },
        'w' => {
            proof {
                reveal_strlit("W");
            }
            "W"
        },
        'x' => {
            proof {
                reveal_strlit("X");
            }
            "X"
        },
        'y' => {
            proof {
                reveal_strlit("Y");
            }
            "Y"
        },
        'z' => {
            proof {
                reveal_strlit("Z");
            }
            "Z"
        },
        _ => {
            proof {
                reveal_strlit("Z");
            }
            "Z"
        },
    }
}

/// Appends `w` with every character mapped by `mode`: 0 lowercases, 1 uppercases, 2
/// uppercases the first character and lowercases the others.
fn push_mapped(s: &mut String, w: &str, mode: u8)
    requires
        mode <= 2,
    ensures
        final(s)@ == old(s)@ + if mode == 0 {
            lower_word(w@)
        } else if mode == 1 {
            upper_word(w@)
        } else {
            title_word(w@)
        },
{
    let n = w.unicode_len();
    let ghost start = old(s)@;
    let mut j: usize = 0;
    while j < n
        invariant
            mode <= 2,
            n == w@.len(),
            j <= n,
            start == old(s)@,
            s@ == start + if mode == 0 || (mode == 2 && j > 0) {
                if mode == 0 {
                    lower_word(w@.take(j as int))
                } else {
                    seq![ascii_upper(w@[0])] + lower_word(w@.subrange(1, j as int))
                }
            } else if mode == 1 {
                upper_word(w@.take(j as int))
            } else {
                Seq::<char>::empty()
            },
        decreases n - j,
    {
        let c = w.get_char(j);
        let upper = mode == 1 || (mode == 2 && j == 0);
        let ghost before = s@;
        if upper {
            if 'a' <= c && c <= 'z' {
                s.append(upper_letter(c));
            } else {
                s.append(w.substring_char(j, j + 1));
                assert(w@.subrange(j as int, j + 1) =~= seq![c]);
            }
            assert(s@ == before + seq![ascii_upper(c)]);
        } else {
            if 'A' <= c && c <= 'Z' {
                s.append(lower_letter(c));
            } else {
                s.append(w.substring_char(j, j + 1));
                assert(w@.subrange(j as int, j + 1) =~= seq![c]);
            }
            assert(s@ == before + seq![ascii_lower(c)]);
        }
        proof {
            if mode == 0 {
                assert(lower_word(w@.take(j + 1)) =~= lower_word(w@.take(j as int)).push(ascii_lower(c)));
            } else if mode == 1 {
                assert(upper_word(w@.take(j + 1)) =~= upper_word(w@.take(j as int)).push(ascii_upper(c)));
            } else if j == 0 {
                assert(w@.subrange(1, 1) =~= Seq::<char>::empty());
                assert(lower_word(w@.subrange(1, 1)) =~= Seq::<char>::empty());
            } else {
                assert(lower_word(w@.subrange(1, j + 1)) =~= lower_word(w@.subrange(1, j as int)).push(
                    ascii_lower(c),
                ));
            }
        }
        j = j + 1;
        assert(s@ =~= start + if mode == 0 || (mode == 2 && j > 0) {
            if mode == 0 {
                lower_word(w@.take(j as int))
            } else {
                seq![ascii_upper(w@[0])] + lower_word(w@.subrange(1, j as int))
            }
        } else if mode == 1 {
            upper_word(w@.take(j as int))
        } else {
            Seq::<char>::empty()
        });
    }
    proof {
        assert(w@.take(n as int) =~= w@);
    }
}

/// The words of `ident`, in order.
pub fn words_of(ident: &str) -> (r: Vec<String>)
    ensures
        seq_view(r@) == words(ident@),
{
    let n = ident.unicode_len();
    let mut done: Vec<String> = Vec::new();
    let mut current = String::new();
    let mut prev_lower = false;
    let mut i: usize = 0;
    assert(seq_view(done@) =~= Seq::<Seq<char>>::empty());
    assert(ident@.take(0) =~= Seq::<char>::empty());
    while i < n
        invariant
            n == ident@.len(),
            i <= n,
            (Scan { done: seq_view(done@), current: current@, prev_lower }) == scan(ident@.take(i as int)),
        decreases n - i,
    {
        let c = ident.get_char(i);
        let ghost st = scan(ident@.take(i as int));
        proof {
            assert(ident@.take(i + 1).drop_last() =~= ident@.take(i as int));
            assert(ident@.take(i + 1).last() == c);
        }
        if c == '_' {
            if !current.as_str().is_empty() {
                let w = current;
                current = String::new();
                done.push(w);
                assert(seq_view(done@) =~= st.done.push(st.current));
            }
            prev_lower = false;
        } else {
            let is_up = 'A' <= c && c <= 'Z';
            if is_up && prev_lower && !current.as_str().is_empty() {
                let w = current;
                current = String::new();
                done.push(w);
                assert(seq_view(done@) =~= st.done.push(st.current));
            }
            current.append(ident.substring_char(i, i + 1));
            assert(ident@.subrange(i as int, i + 1) =~= seq![c]);
            prev_lower = ('a' <= c && c <= 'z') || ('0' <= c && c <= '9');
        }
        assert(current@ =~= scan(ident@.take(i + 1)).current);
        i = i + 1;
    }
    assert(ident@.take(n as int) =~= ident@);
    if !current.as_str().is_empty() {
        let ghost st = scan(ident@);
        done.push(current);
        assert(seq_view(done@) =~= st.done.push(st.current));
    }
    done
}

/// The words of `ident`, each mapped by `mode` (see [`push_mapped`]), joined by `sep`.
fn spelled(ident: &str, mode: u8, sep: &str) -> (r: String)
    requires
        mode <= 2,
    ensures
        r@ == joined(
            words(ident@).map_values(
                |w: Seq<char>|
                    if mode == 0 {
                        lower_word(w)
                    } else if mode == 1 {
                        upper_word(w)
                    } else {
                        title_word(w)
                    },
            ),
            sep@,
        ),
{
    let ws = words_of(ident);
    let ghost f = |w: Seq<char>|
        if mode == 0 {
            lower_word(w)
        } else if mode == 1 {
            upper_word(w)
        } else {
            title_word(w)
        };
    let ghost mapped = seq_view(ws@).map_values(f);
    let mut s = String::new();
    let mut i: usize = 0;
    while i < ws.len()
        invariant
            mode <= 2,
            i <= ws@.len(),
            mapped == seq_view(ws@).map_values(f),
            f == (|w: Seq<char>|
                if mode == 0 {
                    lower_word(w)
                } else if mode == 1 {
                    upper_word(w)
                } else {
                    title_word(w)
                }),
            s@ == joined(mapped.take(i as int), sep@),
        decreases ws@.len() - i,
    {
        if i > 0 {
            s.append(sep);
        }
        push_mapped(&mut s, ws[i].as_str(), mode);
        proof {
            let t = mapped.take(i + 1);
            assert(t.drop_last() =~= mapped.take(i as int));
            assert(t.last() == f(ws@[i as int]@));
            if i == 0 {
                assert(mapped.take(0) =~= Seq::<Seq<char>>::empty());
                assert(s@ =~= t[0]);
            } else {
                assert(s@ =~= joined(t.drop_last(), sep@) + sep@ + t.last());
            }
        }
        i = i + 1;
    }
    assert(mapped.take(ws@.len() as int) =~= mapped);
    s
}

/// `ident` in snake case.
pub fn to_snake_case(ident: &str) -> (r: String)
    ensures
        r@ == snake_case(ident@),
{
    let r = spelled(ident, 0, "_");
    proof {
        reveal_strlit("_");
        assert(words(ident@).map_values(|w: Seq<char>| if 0u8 == 0 { lower_word(w) } else if 0u8 == 1 { upper_word(w) } else { title_word(w) }) =~= words(ident@).map_values(|w: Seq<char>| lower_word(w)));
    }
    r
}

/// `ident` in upper case.
pub fn to_upper_case(ident: &str) -> (r: String)
    ensures
        r@ == upper_case(ident@),
{
    let r = spelled(ident, 1, "_");
    proof {
        reveal_strlit("_");
        assert(words(ident@).map_values(|w: Seq<char>| if 1u8 == 0 { lower_word(w) } else if 1u8 == 1 { upper_word(w) } else { title_word(w) }) =~= words(ident@).map_values(|w: Seq<char>| upper_word(w)));
    }
    r
}

/// `ident` in title case.
pub fn to_title_case(ident: &str) -> (r: String)
    ensures
        r@ == title_case(ident@),
{
    let r = spelled(ident, 2, " ");
    proof {
        reveal_strlit(" ");
        assert(words(ident@).map_values(|w: Seq<char>| if 2u8 == 0 { lower_word(w) } else if 2u8 == 1 { upper_word(w) } else { title_word(w) }) =~= words(ident@).map_values(|w: Seq<char>| title_word(w)));
    }
    r
}

} // verus!
