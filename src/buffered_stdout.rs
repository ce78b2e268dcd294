use vstd::prelude::*;
use vstd::string::StringSliceAdditionalSpecFns;

verus! {

/// The number of newline bytes in `s`.
pub open spec fn count_newlines(s: Seq<u8>) -> nat
    decreases s.len(),
{
    if s.len() == 0 {
        0
    } else {
        count_newlines(s.drop_last()) + if s.last() == 0x0a { 1nat } else { 0nat }
    }
}

/// Whether `s` ends with a carriage return and a newline.
pub open spec fn ends_with_crlf(s: Seq<u8>) -> bool {
    s.len() >= 2 && s[s.len() - 2] == 0x0d && s[s.len() - 1] == 0x0a
}

/// `s`, ended by a carriage return and a newline if it is not already.
pub open spec fn terminated(s: Seq<u8>) -> Seq<u8> {
    if ends_with_crlf(s) {
        s
    } else {
        s + seq![0x0du8, 0x0au8]
    }
}

/// Screen text gathered before it is written in one piece, with the number of
/// lines written since the screen was last cleared.
pub struct BufferedStdout {
    buffer: Vec<u8>,
    printed_lines: u16,
}

impl BufferedStdout {
    /// The UTF-8 text gathered so far.
    pub closed spec fn pending(&self) -> Seq<u8> {
        self.buffer@
    }

    /// Lines written since the last clear.
    pub closed spec fn lines_on_screen(&self) -> u16 {
        self.printed_lines
    }

    /// Nothing gathered, nothing written.
    pub fn new() -> (r: BufferedStdout)
        ensures
            r.pending() == Seq::<u8>::empty(),
            r.lines_on_screen() == 0,
    {
        BufferedStdout { buffer: Vec::new(), printed_lines: 0 }
    }

    /// Gathers `s` after what is already there.
    pub fn add(&mut self, s: &str)
        ensures
            final(self).pending() == old(self).pending() + s.spec_bytes(),
            final(self).lines_on_screen() == old(self).lines_on_screen(),
    {
        let bytes = s.as_bytes();
        let mut i: usize = 0;
        let ghost base = self.buffer@;
        while i < bytes.len()
            invariant
                i <= bytes@.len(),
                bytes@ == s.spec_bytes(),
                self.buffer@ == base + bytes@.take(i as int),
                self.printed_lines == old(self).printed_lines,
                base == old(self).buffer@,
            decreases bytes@.len() - i,
        {
            self.buffer.push(bytes[i]);
            i += 1;
            assert(self.buffer@ =~= base + bytes@.take(i as int));
        }
        assert(bytes@.take(bytes@.len() as int) =~= bytes@);
    }

    /// Hands back the gathered text, ended by `\r\n`, for writing; counts its
    /// lines as on screen (saturating at `u16::MAX`) and starts a new buffer.
    pub fn flush(&mut self) -> (r: Vec<u8>)
        ensures
            r@ == terminated(old(self).pending()),
            final(self).pending() == Seq::<u8>::empty(),
            final(self).lines_on_screen() as int == if old(self).lines_on_screen() + count_newlines(r@)
                > u16::MAX {
                u16::MAX as int
            } else {
                old(self).lines_on_screen() + count_newlines(r@)
            },
    {
        let n = self.buffer.len();
        if !(n >= 2 && self.buffer[n - 2] == 0x0d && self.buffer[n - 1] == 0x0a) {
            self.buffer.push(0x0d);
            self.buffer.push(0x0a);
            assert(self.buffer@ =~= old(self).buffer@ + seq![0x0du8, 0x0au8]);
        }
        let mut count: u16 = 0;
        let mut i: usize = 0;
        assert(self.buffer@.take(0) =~= Seq::<u8>::empty());
        while i < self.buffer.len()
            invariant
                i <= self.buffer@.len(),
                count as int == if count_newlines(self.buffer@.take(i as int)) > u16::MAX {
                    u16::MAX as int
                } else {
                    count_newlines(self.buffer@.take(i as int)) as int
                },
            decreases self.buffer@.len() - i,
        {
            assert(self.buffer@.take(i + 1).drop_last() =~= self.buffer@.take(i as int));
            if self.buffer[i] == 0x0a {
                count = count.saturating_add(1);
            }
            i += 1;
        }
        assert(self.buffer@.take(i as int) =~= self.buffer@);
        self.printed_lines = self.printed_lines.saturating_add(count);
        let out = self.buffer.clone();
        self.buffer = Vec::new();
        out
    }

    /// Forgets the lines on screen and hands back how many there were, for the
    /// caller to move the cursor up over them and clear below it.
    pub fn clear(&mut self) -> (r: u16)
        ensures
            r == old(self).lines_on_screen(),
            final(self).lines_on_screen() == 0,
            final(self).pending() == old(self).pending(),
    {
        let r = self.printed_lines;
        self.printed_lines = 0;
        r
    }
}

} // verus!
