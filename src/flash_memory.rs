//! Program memory: 16-bit words, written when a program is loaded and read by the CPU.
use crate::bit::{high_byte, low_byte};
use crate::word::Word;
use vstd::prelude::*;
use vstd::string::StringSliceAdditionalSpecFns;

verus! {

/// The largest program memory that 22-bit program addresses can reach, in words.
pub const MAX_FLASH_WORDS: usize = 0x40_0000;

pub struct FlashMemory {
    pub data: Vec<u16>,
}

impl View for FlashMemory {
    type V = Seq<u16>;

    open spec fn view(&self) -> Seq<u16> {
        self.data@
    }
}

/// The byte at byte address `z` of program memory `f`: each word holds its low byte first.
pub open spec fn program_byte(f: Seq<u16>, z: int) -> u8 {
    if z % 2 == 0 {
        (f[z / 2] % 256) as u8
    } else {
        (f[z / 2] / 256) as u8
    }
}

/// Why a program image could not be loaded.
#[derive(Clone, Copy, PartialEq, Eq, Structural, Debug)]
pub enum HexError {
    /// A data field holds a character that is not a hexadecimal digit.
    InvalidDigit,
    /// The program has more words than the flash holds.
    TooLarge,
}

/// The value of an ASCII hexadecimal digit.
pub open spec fn hex_value(c: u8) -> Option<u16> {
    if 48 <= c <= 57 {
        Some((c - 48) as u16)
    } else if 97 <= c <= 102 {
        Some((c - 87) as u16)
    } else if 65 <= c <= 70 {
        Some((c - 55) as u16)
    } else {
        None
    }
}

/// The flash word written as the four hex digits `a b c d`: a little-endian word, so its
/// high byte is `c d` and its low byte `a b`.
pub open spec fn group_word(a: u16, b: u16, c: u16, d: u16) -> u16 {
    (c * 4096 + d * 256 + a * 16 + b) as u16
}

/// `p` followed by the words of `o`, when there are any.
pub open spec fn app(p: Seq<u16>, o: Option<Seq<u16>>) -> Option<Seq<u16>> {
    match o {
        Some(x) => Some(p + x),
        None => None,
    }
}

/// The words of the data field `b[i..end]`: one per group of four digits, a last incomplete
/// group left out; `None` at a character that is no digit.
pub open spec fn data_words(b: Seq<u8>, i: int, end: int) -> Option<Seq<u16>>
    decreases end - i,
{
    if i + 4 > end {
        Some(Seq::empty())
    } else {
        match (hex_value(b[i]), hex_value(b[i + 1]), hex_value(b[i + 2]), hex_value(b[i + 3])) {
            (Some(x0), Some(x1), Some(x2), Some(x3)) => app(
                seq![group_word(x0, x1, x2, x3)],
                data_words(b, i + 4, end),
            ),
            _ => None,
        }
    }
}

/// The words of the line `b[i..e]`: a data record (record type "00" in columns 7 and 8) of at
/// least eleven characters gives the words of its data field, from column 9 up to the two
/// checksum digits; any other line gives none.
pub open spec fn line_words(b: Seq<u8>, i: int, e: int) -> Option<Seq<u16>> {
    if e - i < 11 || b[i + 7] != 48 || b[i + 8] != 48 {
        Some(Seq::empty())
    } else {
        data_words(b, i + 9, e - 2)
    }
}

/// Where the line starting at `i` ends: the first newline at or after `i`, or the end.
pub open spec fn line_end(b: Seq<u8>, i: int) -> int
    decreases b.len() - i,
{
    if i >= b.len() || b[i] == 10 {
        i
    } else {
        line_end(b, i + 1)
    }
}

/// The words of the Intel-HEX text `b` from position `i` on, line after line.
pub open spec fn hex_words_from(b: Seq<u8>, i: int) -> Option<Seq<u16>>
    decreases b.len() - i,
{
    let e = line_end(b, i);
    if i > b.len() || e >= b.len() || e < i {
        line_words(b, i, e)
    } else {
        match line_words(b, i, e) {
            Some(w) => app(w, hex_words_from(b, e + 1)),
            None => None,
        }
    }
}

/// The program words of the Intel-HEX text `b`.
pub open spec fn hex_words(b: Seq<u8>) -> Option<Seq<u16>> {
    hex_words_from(b, 0)
}

proof fn lemma_line_end(b: Seq<u8>, i: int)
    requires
        0 <= i <= b.len(),
    ensures
        i <= line_end(b, i) <= b.len(),
        forall|k: int| i <= k < line_end(b, i) ==> b[k] != 10,
        line_end(b, i) < b.len() ==> b[line_end(b, i)] == 10,
    decreases b.len() - i,
{
    if i < b.len() && b[i] != 10 {
        lemma_line_end(b, i + 1);
    }
}

fn hex_digit(c: u8) -> (r: Option<u16>)
    ensures
        r == hex_value(c),
{
    if 48 <= c && c <= 57 {
        Some((c - 48) as u16)
    } else if 97 <= c && c <= 102 {
        Some((c - 87) as u16)
    } else if 65 <= c && c <= 70 {
        Some((c - 55) as u16)
    } else {
        None
    }
}

/// The words of the data field `b[i..end]`.
fn parse_data(b: &[u8], i: usize, end: usize) -> (r: Option<Vec<u16>>)
    requires
        i <= end <= b@.len(),
    ensures
        r matches Some(v) ==> data_words(b@, i as int, end as int) == Some(v@),
        r is None ==> data_words(b@, i as int, end as int) is None,
{
    let mut v: Vec<u16> = Vec::new();
    let mut j = i;
    while end - j >= 4
        invariant
            i <= j <= end <= b@.len(),
            data_words(b@, i as int, end as int) == app(v@, data_words(b@, j as int, end as int)),
        decreases end - j,
    {
        let d0 = hex_digit(b[j]);
        let d1 = hex_digit(b[j + 1]);
        let d2 = hex_digit(b[j + 2]);
        let d3 = hex_digit(b[j + 3]);
        match (d0, d1, d2, d3) {
            (Some(x0), Some(x1), Some(x2), Some(x3)) => {
                let w = (x2 * 4096 + x3 * 256 + x0 * 16 + x1) as u16;
                proof {
                    let rest = data_words(b@, j + 4, end as int);
                    if let Some(x) = rest {
                        assert(v@ + (seq![w] + x) =~= v@.push(w) + x);
                    }
                }
                v.push(w);
                j = j + 4;
            },
            _ => {
                return None;
            },
        }
    }
    assert(v@ + Seq::<u16>::empty() =~= v@);
    Some(v)
}

/// Parses Intel-HEX text into program words.
pub fn parse_hex(b: &[u8]) -> (r: Option<Vec<u16>>)
    ensures
        r matches Some(v) ==> hex_words(b@) == Some(v@),
        r is None ==> hex_words(b@) is None,
{
    let n = b.len();
    let mut out: Vec<u16> = Vec::new();
    let mut i: usize = 0;
    loop
        invariant
            n == b@.len(),
            i <= n,
            hex_words(b@) == app(out@, hex_words_from(b@, i as int)),
        decreases n - i,
    {
        proof {
            lemma_line_end(b@, i as int);
        }
        let mut e = i;
        while e < n && b[e] != 10
            invariant
                i <= e <= n,
                n == b@.len(),
                line_end(b@, e as int) == line_end(b@, i as int),
            decreases n - e,
        {
            e = e + 1;
        }
        assert(e == line_end(b@, i as int));
        let mut words = if e - i < 11 || b[i + 7] != 48 || b[i + 8] != 48 {
            Vec::new()
        } else {
            match parse_data(b, i + 9, e - 2) {
                Some(w) => w,
                None => {
                    return None;
                },
            }
        };
        let ghost lw = words@;
        assert(line_words(b@, i as int, e as int) == Some(lw)) by {
            if e - i < 11 || b[i + 7] != 48 || b[i + 8] != 48 {
                assert(lw =~= Seq::<u16>::empty());
            }
        }
        let ghost before = out@;
        out.append(&mut words);
        if e >= n {
            return Some(out);
        }
        proof {
            if let Some(x) = hex_words_from(b@, e + 1) {
                assert(before + (lw + x) =~= (before + lw) + x);
            }
        }
        i = e + 1;
    }
}

impl FlashMemory {
    pub open spec fn wf(&self) -> bool {
        self@.len() <= MAX_FLASH_WORDS
    }

    /// Program memory of `size` words, all zero.
    pub fn new(size: usize) -> (r: FlashMemory)
        requires
            size <= MAX_FLASH_WORDS,
        ensures
            r.wf(),
            r@ == Seq::new(size as nat, |i: int| 0u16),
    {
        let r = FlashMemory { data: vec![0u16; size] };
        assert(r@ =~= Seq::new(size as nat, |i: int| 0u16));
        r
    }

    pub fn len(&self) -> (r: usize)
        ensures
            r == self@.len(),
    {
        self.data.len()
    }

    pub fn get(&self, a: usize) -> (r: u16)
        requires
            a < self@.len(),
        ensures
            r == self@[a as int],
    {
        self.data[a]
    }

    pub fn set(&mut self, a: usize, v: u16)
        requires
            a < old(self)@.len(),
        ensures
            final(self)@ == old(self)@.update(a as int, v),
    {
        self.data.set(a, v);
    }

    /// The instruction word at `pc`.
    pub fn word(&self, pc: usize) -> (r: Word)
        requires
            pc < self@.len(),
        ensures
            r.0 == self@[pc as int],
    {
        Word(self.get(pc))
    }

    /// The words at `pc` and `pc + 1`, for a two-word instruction.
    pub fn double_word(&self, pc: usize) -> (r: (Word, Word))
        requires
            pc + 1 < self@.len(),
        ensures
            r.0.0 == self@[pc as int],
            r.1.0 == self@[pc + 1],
    {
        let n = self.data.len();
        assert(pc + 1 < n);
        (self.word(pc), self.word(pc + 1))
    }

    /// Loads the program of the Intel-HEX text `hex` from word 0 on; the rest keeps its value.
    /// Nothing is written when the text is malformed or the program does not fit.
    pub fn load_hex_from_string(&mut self, hex: &str) -> (r: Result<(), HexError>)
        requires
            old(self).wf(),
        ensures
            final(self).wf(),
            match hex_words(hex.spec_bytes()) {
                None => r == Err::<(), HexError>(HexError::InvalidDigit) && final(self)@ == old(self)@,
                Some(w) => if w.len() > old(self)@.len() {
                    r == Err::<(), HexError>(HexError::TooLarge) && final(self)@ == old(self)@
                } else {
                    r is Ok && final(self)@ == w + old(self)@.subrange(w.len() as int, old(self)@.len() as int)
                },
            },
    {
        let b = hex.as_bytes();
        let words = match parse_hex(b) {
            Some(w) => w,
            None => {
                return Err(HexError::InvalidDigit);
            },
        };
        if words.len() > self.data.len() {
            return Err(HexError::TooLarge);
        }
        let ghost old_data = self@;
        let mut k: usize = 0;
        while k < words.len()
            invariant
                k <= words@.len() <= old_data.len(),
                self@.len() == old_data.len(),
                forall|j: int| 0 <= j < k ==> self@[j] == words@[j],
                forall|j: int| k <= j < old_data.len() ==> self@[j] == old_data[j],
            decreases words@.len() - k,
        {
            self.data.set(k, words[k]);
            k = k + 1;
        }
        assert(self@ =~= words@ + old_data.subrange(words@.len() as int, old_data.len() as int));
        Ok(())
    }

    /// The byte at byte address `z_addr` (as LPM reads it through the Z register).
    pub fn z_program_memory(&self, z_addr: u16) -> (r: u8)
        requires
            z_addr / 2 < self@.len(),
        ensures
            r == program_byte(self@, z_addr as int),
    {
        if z_addr % 2 == 0 {
            low_byte(self.get((z_addr / 2) as usize))
        } else {
            high_byte(self.get(((z_addr - 1) / 2) as usize))
        }
    }
}

} // verus!
