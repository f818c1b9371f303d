//! The in-memory log of a fuzz run, and the report that picks out the log
//! entries of one sequence when it fails.
use crate::text::decimal;
use crate::text::push_decimal;
use vstd::prelude::*;
use vstd::string::*;

verus! {

/// What `strip_ansi_escapes::strip` leaves of `bytes`.
pub uninterp spec fn ansi_stripped(bytes: Seq<u8>) -> Seq<u8>;

/// Removes the ANSI escape sequences from `bytes` with
/// `strip_ansi_escapes::strip`. The contract claims only that the result is
/// a function of `bytes`, named `ansi_stripped`; which bytes are escapes is
/// left to that crate.
#[verifier::external_body]
fn strip_ansi(bytes: &[u8]) -> (r: Vec<u8>)
    ensures
        r@ == ansi_stripped(bytes@),
{
    strip_ansi_escapes::strip(bytes)
}

/// The bytes of an ASCII text.
pub open spec fn ascii(s: Seq<char>) -> Seq<u8> {
    s.map_values(|c: char| c as u8)
}

/// The blocks of `s[start..]` separated by blank lines (`"\n\n"`), as
/// `str::split` yields them: scanning from `j`, the first separator ends the
/// block that began at `start`, and the scan goes on after it.
pub open spec fn blocks_from(s: Seq<u8>, start: int, j: int) -> Seq<Seq<u8>>
    decreases s.len() - j,
{
    if j + 1 >= s.len() {
        seq![s.subrange(start, s.len() as int)]
    } else if s[j] == 10 && s[j + 1] == 10 {
        seq![s.subrange(start, j)] + blocks_from(s, j + 2, j + 2)
    } else {
        blocks_from(s, start, j + 1)
    }
}

/// The blocks of `s` separated by blank lines.
pub open spec fn blocks(s: Seq<u8>) -> Seq<Seq<u8>> {
    blocks_from(s, 0, 0)
}

/// The blocks joined again, with a blank line (`"\n\n"`) between two of them.
pub open spec fn joined_blocks(bs: Seq<Seq<u8>>) -> Seq<u8>
    decreases bs.len(),
{
    if bs.len() == 0 {
        Seq::empty()
    } else if bs.len() == 1 {
        bs[0]
    } else {
        bs[0] + seq![10u8, 10u8] + joined_blocks(bs.drop_first())
    }
}

/// `b` holds no blank line: no two newlines in a row.
pub open spec fn has_no_blank_line(b: Seq<u8>) -> bool {
    forall|k: int| 0 <= k < b.len() - 1 ==> !(#[trigger] b[k] == 10 && b[k + 1] == 10)
}

proof fn lemma_blocks_from(s: Seq<u8>, start: int, j: int)
    requires
        0 <= start <= j <= s.len(),
        forall|k: int| start <= k < j && k + 1 < s.len() ==> !(#[trigger] s[k] == 10 && s[k + 1] == 10),
    ensures
        blocks_from(s, start, j).len() >= 1,
        joined_blocks(blocks_from(s, start, j)) == s.subrange(start, s.len() as int),
        forall|i: int|
            0 <= i < blocks_from(s, start, j).len() ==> has_no_blank_line(
                #[trigger] blocks_from(s, start, j)[i],
            ),
    decreases s.len() - j,
{
    if j + 1 >= s.len() {
        let b = s.subrange(start, s.len() as int);
        assert forall|k: int| 0 <= k < b.len() - 1 implies !(#[trigger] b[k] == 10 && b[k + 1] == 10) by {
            assert(b[k] == s[start + k] && b[k + 1] == s[start + k + 1]);
        }
    } else if s[j] == 10 && s[j + 1] == 10 {
        lemma_blocks_from(s, j + 2, j + 2);
        let b = s.subrange(start, j);
        let rest = blocks_from(s, j + 2, j + 2);
        let all = blocks_from(s, start, j);
        assert(all == seq![b] + rest);
        assert(all.drop_first() =~= rest);
        assert(all[0] == b);
        assert(s.subrange(start, s.len() as int) =~= b + seq![10u8, 10u8] + s.subrange(
            j + 2,
            s.len() as int,
        ));
        assert forall|k: int| 0 <= k < b.len() - 1 implies !(#[trigger] b[k] == 10 && b[k + 1] == 10) by {
            assert(b[k] == s[start + k] && b[k + 1] == s[start + k + 1]);
        }
        assert forall|i: int| 0 <= i < all.len() implies has_no_blank_line(#[trigger] all[i]) by {
            if i > 0 {
                assert(all[i] == rest[i - 1]);
            }
        }
    } else {
        lemma_blocks_from(s, start, j + 1);
    }
}

/// The blocks of a log are the pieces between its blank lines: there is at
/// least one, none holds a blank line (a block may hold single newlines),
/// and joining them with blank lines gives the log back.
pub proof fn lemma_blocks(s: Seq<u8>)
    ensures
        blocks(s).len() >= 1,
        joined_blocks(blocks(s)) == s,
        forall|i: int| 0 <= i < blocks(s).len() ==> has_no_blank_line(#[trigger] blocks(s)[i]),
{
    lemma_blocks_from(s, 0, 0);
    assert(s.subrange(0, s.len() as int) =~= s);
}

/// `needle` occurs in `hay`.
pub open spec fn contains_bytes(hay: Seq<u8>, needle: Seq<u8>) -> bool {
    exists|i: int|
        0 <= i <= hay.len() - needle.len() && #[trigger] hay.subrange(i, i + needle.len())
            == needle
}

/// The text by which the log entries of a sequence are recognized.
pub open spec fn sequence_marker(curr_seq_n: nat) -> Seq<u8> {
    ascii("curr_sequence_number="@ + decimal(curr_seq_n))
}

/// The blocks that, without their ANSI escapes, contain the marker, each
/// followed by a blank line.
pub open spec fn matching_blocks(bs: Seq<Seq<u8>>, marker: Seq<u8>) -> Seq<u8>
    decreases bs.len(),
{
    if bs.len() == 0 {
        Seq::empty()
    } else {
        matching_blocks(bs.drop_last(), marker) + if contains_bytes(
            ansi_stripped(bs.last()),
            marker,
        ) {
            bs.last() + seq![10u8, 10u8]
        } else {
            Seq::empty()
        }
    }
}

/// What is printed of the log for the failed sequence `curr_seq_n`: the size
/// of the log, the marker looked for, and each block of the log that holds
/// the marker.
pub open spec fn sequence_report(log: Seq<u8>, curr_seq_n: nat) -> Seq<u8> {
    ascii(
        "Printing "@ + decimal(log.len()) + " bytes:\n"@ + "Checking for curr_sequence_number="@
            + decimal(curr_seq_n) + "\n"@,
    ) + matching_blocks(blocks(log), sequence_marker(curr_seq_n))
}

/// A log kept in memory, to which the formatted log entries of a fuzz run are
/// written.
pub struct MemoryWriter {
    buf: Vec<u8>,
}

impl View for MemoryWriter {
    type V = Seq<u8>;

    closed spec fn view(&self) -> Seq<u8> {
        self.buf@
    }
}

fn push_ascii(v: &mut Vec<u8>, s: &str)
    requires
        s.is_ascii(),
    ensures
        final(v)@ == old(v)@ + ascii(s@),
{
    broadcast use vstd::string::is_ascii_spec_bytes;

    let bytes = s.as_bytes();
    assert(bytes@ =~= ascii(s@));
    let mut i: usize = 0;
    while i < bytes.len()
        invariant
            i <= bytes@.len(),
            bytes@ == ascii(s@),
            v@ == old(v)@ + bytes@.take(i as int),
        decreases bytes.len() - i,
    {
        v.push(bytes[i]);
        assert(bytes@.take(i + 1) =~= bytes@.take(i as int).push(bytes@[i as int]));
        i = i + 1;
    }
    assert(bytes@.take(bytes@.len() as int) =~= bytes@);
}

fn push_decimal_ascii(v: &mut Vec<u8>, n: usize)
    ensures
        final(v)@ == old(v)@ + ascii(decimal(n as nat)),
{
    let mut s = String::new();
    push_decimal(&mut s, n as u128);
    assert(s@ =~= decimal(n as nat));
    let mut i: usize = 0;
    let len = s.unicode_len();
    while i < len
        invariant
            len == s@.len(),
            s@ == decimal(n as nat),
            i <= len,
            v@ == old(v)@ + ascii(s@).take(i as int),
        decreases len - i,
    {
        let c = s.get_char(i);
        v.push(c as u8);
        assert(ascii(s@).take(i + 1) =~= ascii(s@).take(i as int).push(c as u8));
        i = i + 1;
    }
    assert(ascii(s@).take(len as int) =~= ascii(s@));
}

fn has_bytes(hay: &Vec<u8>, needle: &Vec<u8>) -> (b: bool)
    ensures
        b == contains_bytes(hay@, needle@),
{
    let n = hay.len();
    let m = needle.len();
    if m > n {
        return false;
    }
    if m == 0 {
        assert(hay@.subrange(0int, 0int + needle@.len()) =~= needle@);
        return true;
    }
    let mut i: usize = 0;
    while i <= n - m
        invariant
            m <= n,
            n == hay@.len(),
            m == needle@.len(),
            i <= n - m + 1,
            forall|k: int| 0 <= k < i ==> #[trigger] hay@.subrange(k, k + m) != needle@,
        decreases n - m + 1 - i,
    {
        let mut j: usize = 0;
        let mut equal = true;
        assert(hay@.subrange(i as int, i as int) =~= needle@.take(0));
        while j < m
            invariant
                i + m <= n,
                n == hay@.len(),
                m == needle@.len(),
                j <= m,
                equal == (hay@.subrange(i as int, i + j) == needle@.take(j as int)),
            decreases m - j,
        {
            if hay[i + j] != needle[j] {
                equal = false;
                assert(hay@.subrange(i as int, i + j + 1)[j as int] != needle@.take(j + 1)[j as int]);
            } else if equal {
                assert(hay@.subrange(i as int, i + j + 1) =~= needle@.take(j + 1));
            }
            if !equal {
                assert(hay@.subrange(i as int, i + j + 1) != needle@.take(j + 1)) by {
                    if hay@.subrange(i as int, i + j + 1) == needle@.take(j + 1) {
                        assert(hay@.subrange(i as int, i + j) =~= hay@.subrange(i as int, i + j + 1).take(j as int));
                        assert(needle@.take(j as int) =~= needle@.take(j + 1).take(j as int));
                    }
                }
            }
            j = j + 1;
        }
        assert(needle@.take(m as int) =~= needle@);
        if equal {
            return true;
        }
        i = i + 1;
    }
    assert(!contains_bytes(hay@, needle@)) by {
        if contains_bytes(hay@, needle@) {
            let k = choose|k: int|
                0 <= k <= hay@.len() - needle@.len() && #[trigger] hay@.subrange(k, k + needle@.len())
                    == needle@;
            assert(hay@.subrange(k, k + m) != needle@);
        }
    }
    false
}

fn subvec(s: &Vec<u8>, from: usize, to: usize) -> (r: Vec<u8>)
    requires
        from <= to <= s@.len(),
    ensures
        r@ == s@.subrange(from as int, to as int),
{
    let mut r: Vec<u8> = Vec::new();
    let mut k = from;
    while k < to
        invariant
            from <= k <= to <= s@.len(),
            r@ == s@.subrange(from as int, k as int),
        decreases to - k,
    {
        r.push(s[k]);
        assert(s@.subrange(from as int, k + 1) =~= s@.subrange(from as int, k as int).push(s@[k as int]));
        k = k + 1;
    }
    r
}

impl MemoryWriter {
    /// Creates an empty log.
    pub fn new() -> (w: Self)
        ensures
            w@ == Seq::<u8>::empty(),
    {
        MemoryWriter { buf: Vec::new() }
    }

    /// Gives access to the bytes written so far.
    pub fn buf(&self) -> (b: &Vec<u8>)
        ensures
            b@ == self@,
    {
        &self.buf
    }

    /// Appends `data` to the log and returns how many bytes were written: all
    /// of them.
    pub fn write(&mut self, data: &[u8]) -> (n: usize)
        ensures
            final(self)@ == old(self)@ + data@,
            n == data@.len(),
    {
        let mut i: usize = 0;
        while i < data.len()
            invariant
                i <= data@.len(),
                self@ == old(self)@ + data@.take(i as int),
            decreases data.len() - i,
        {
            self.buf.push(data[i]);
            assert(data@.take(i + 1) =~= data@.take(i as int).push(data@[i as int]));
            i = i + 1;
        }
        assert(data@.take(data@.len() as int) =~= data@);
        data.len()
    }

    /// Flushing a log in memory does nothing.
    pub fn flush(&mut self)
        ensures
            final(self)@ == old(self)@,
    {
    }

    /// The report printed of the log when the sequence `curr_seq_n` failed:
    /// the size of the log, the marker of the sequence, and every block of
    /// the log (blocks are separated by blank lines) that, without its ANSI
    /// escapes, holds the marker, each followed by a blank line.
    pub fn sequence_report(&self, curr_seq_n: usize) -> (report: Vec<u8>)
        ensures
            report@ == sequence_report(self@, curr_seq_n as nat),
    {
        let s = &self.buf;
        let n = s.len();
        let mut report: Vec<u8> = Vec::new();
        proof {
            reveal_strlit("Printing ");
            reveal_strlit(" bytes:\n");
            reveal_strlit("Checking for curr_sequence_number=");
            reveal_strlit("\n");
            reveal_strlit("curr_sequence_number=");
        }
        push_ascii(&mut report, "Printing ");
        push_decimal_ascii(&mut report, n);
        push_ascii(&mut report, " bytes:\n");
        push_ascii(&mut report, "Checking for curr_sequence_number=");
        push_decimal_ascii(&mut report, curr_seq_n);
        push_ascii(&mut report, "\n");
        assert(report@ =~= ascii(
            "Printing "@ + decimal(n as nat) + " bytes:\n"@ + "Checking for curr_sequence_number="@
                + decimal(curr_seq_n as nat) + "\n"@,
        ));
        let mut marker: Vec<u8> = Vec::new();
        push_ascii(&mut marker, "curr_sequence_number=");
        push_decimal_ascii(&mut marker, curr_seq_n);
        assert(marker@ =~= sequence_marker(curr_seq_n as nat));
        let ghost head = report@;
        let ghost done: Seq<Seq<u8>> = Seq::empty();
        let mut start: usize = 0;
        let mut j: usize = 0;
        while n > 0 && j < n - 1
            invariant
                n == s@.len(),
                start <= j <= n,
                s@ == self@,
                marker@ == sequence_marker(curr_seq_n as nat),
                done + blocks_from(s@, start as int, j as int) == blocks(s@),
                report@ == head + matching_blocks(done, marker@),
            decreases n - j,
        {
            if s[j] == 10 && s[j + 1] == 10 {
                let block = subvec(s, start, j);
                let stripped = strip_ansi(block.as_slice());
                proof {
                    assert(blocks_from(s@, start as int, j as int) =~= seq![block@] + blocks_from(s@, j + 2, j + 2));
                    assert(done.push(block@) + blocks_from(s@, j + 2, j + 2) =~= done + blocks_from(s@, start as int, j as int));
                    assert(done.push(block@).drop_last() =~= done);
                }
                if has_bytes(&stripped, &marker) {
                    let mut k: usize = 0;
                    while k < block.len()
                        invariant
                            k <= block@.len(),
                            report@ == head + matching_blocks(done, marker@) + block@.take(k as int),
                        decreases block.len() - k,
                    {
                        report.push(block[k]);
                        assert(block@.take(k + 1) =~= block@.take(k as int).push(block@[k as int]));
                        k = k + 1;
                    }
                    report.push(10u8);
                    report.push(10u8);
                    assert(block@.take(block@.len() as int) =~= block@);
                    assert(report@ =~= head + matching_blocks(done.push(block@), marker@));
                } else {
                    assert(report@ =~= head + matching_blocks(done.push(block@), marker@));
                }
                proof {
                    done = done.push(block@);
                }
                start = j + 2;
                j = j + 2;
            } else {
                j = j + 1;
            }
        }
        let block = subvec(s, start, n);
        let stripped = strip_ansi(block.as_slice());
        proof {
            assert(blocks_from(s@, start as int, j as int) =~= seq![block@]);
            assert(done.push(block@) =~= blocks(s@));
            assert(done.push(block@).drop_last() =~= done);
        }
        if has_bytes(&stripped, &marker) {
            let mut k: usize = 0;
            while k < block.len()
                invariant
                    k <= block@.len(),
                    report@ == head + matching_blocks(done, marker@) + block@.take(k as int),
                decreases block.len() - k,
            {
                report.push(block[k]);
                assert(block@.take(k + 1) =~= block@.take(k as int).push(block@[k as int]));
                k = k + 1;
            }
            report.push(10u8);
            report.push(10u8);
            assert(block@.take(block@.len() as int) =~= block@);
        }
        assert(report@ =~= head + matching_blocks(blocks(s@), marker@));
        report
    }
}

} // verus!
