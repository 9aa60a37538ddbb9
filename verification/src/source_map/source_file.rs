//! Source files that have been read, and where their text lies among all the text of a
//! project.

use std::rc::Rc;
use vstd::prelude::*;
use vstd::utf8::{
    encode_utf8_valid_utf8, is_char_boundary, is_char_boundary_iff_not_is_continuation_byte,
    valid_utf8_split,
};
use crate::source_map::deferred::DeferredSourceFile;
use crate::source_map::modpath::ModulePath;
use crate::source_map::BytePos;
use crate::tree::Label;

verus! {

/// The character that stands for `digit`, which is below ten.
pub open spec fn digit_char(digit: nat) -> char {
    if digit == 0 {
        '0'
    } else if digit == 1 {
        '1'
    } else if digit == 2 {
        '2'
    } else if digit == 3 {
        '3'
    } else if digit == 4 {
        '4'
    } else if digit == 5 {
        '5'
    } else if digit == 6 {
        '6'
    } else if digit == 7 {
        '7'
    } else if digit == 8 {
        '8'
    } else {
        '9'
    }
}

/// `n` written in decimal, without leading zeros.
pub open spec fn decimal(n: nat) -> Seq<char>
    decreases n,
{
    if n < 10 {
        seq![digit_char(n)]
    } else {
        decimal(n / 10).push(digit_char(n % 10))
    }
}

/// What is reported of a position that lies outside a file.
pub open spec fn out_of_bounds(pos: nat) -> Seq<char> {
    decimal(pos) + " byte pos is not within the bounds of this file"@
}

/// Appends `n`, written in decimal, to `text`.
fn push_decimal(text: &mut String, n: usize)
    ensures
        final(text)@ == old(text)@ + decimal(n as nat),
    decreases n,
{
    if n >= 10 {
        push_decimal(text, n / 10);
    }
    let digit = n % 10;
    let c = if digit == 0 {
        '0'
    } else if digit == 1 {
        '1'
    } else if digit == 2 {
        '2'
    } else if digit == 3 {
        '3'
    } else if digit == 4 {
        '4'
    } else if digit == 5 {
        '5'
    } else if digit == 6 {
        '6'
    } else if digit == 7 {
        '7'
    } else if digit == 8 {
        '8'
    } else {
        '9'
    };
    text.push(c);
    assert(text@ =~= old(text)@ + decimal(n as nat));
}

/// The report that `pos` lies outside the file.
fn out_of_bounds_report(pos: usize) -> (report: String)
    ensures
        report@ == out_of_bounds(pos as nat),
{
    let mut report = String::new();
    push_decimal(&mut report, pos);
    report.append(" byte pos is not within the bounds of this file");
    assert(report@ =~= out_of_bounds(pos as nat));
    report
}

/// The text of a source file, with the positions that its first byte and the byte behind
/// its last have among all the text of a project.
#[derive(Debug, PartialEq, Eq)]
pub struct SourceCode {
    start: BytePos,
    end: BytePos,
    /// The text itself.
    pub content: Rc<str>,
}

impl SourceCode {
    /// The position of the first byte of the text.
    pub closed spec fn start(&self) -> nat {
        self.start as nat
    }

    /// The position behind the last byte of the text.
    pub closed spec fn end(&self) -> nat {
        self.end as nat
    }

    /// The text.
    pub closed spec fn text(&self) -> Seq<char> {
        self.content@
    }

    /// The bytes of the text.
    pub open spec fn bytes(&self) -> Seq<u8> {
        vstd::utf8::encode_utf8(self.text())
    }

    /// The text takes up the positions from `start` up to `end`.
    pub open spec fn wf(&self) -> bool {
        self.end() == self.start() + self.bytes().len()
    }

    /// Whether `pos` is the position of a byte of the text.
    pub open spec fn contains(&self, pos: nat) -> bool {
        self.start() <= pos < self.end()
    }

    /// The text `data`, placed at `start`.
    pub fn new(start: BytePos, data: Rc<str>) -> (code: Self)
        requires
            start + vstd::utf8::encode_utf8(data@).len() <= usize::MAX,
        ensures
            code.wf(),
            code.start() == start,
            code.text() == data@,
    {
        let end = data.len() + start;
        Self { start, end, content: data }
    }

    /// The position of the first byte of the text.
    pub fn get_start(&self) -> (start: BytePos)
        ensures
            start == self.start(),
    {
        self.start
    }

    /// The position behind the last byte of the text.
    pub fn get_end(&self) -> (end: BytePos)
        ensures
            end == self.end(),
    {
        self.end
    }

    /// The text, as the field `content` holds it.
    pub fn get_content(&self) -> (content: &str)
        ensures
            content@ == self.text(),
    {
        &*self.content
    }

    /// Whether `pos` is the position of a byte of the text.
    pub fn contains_pos(&self, pos: BytePos) -> (inside: bool)
        ensures
            inside == self.contains(pos as nat),
    {
        self.start <= pos && pos < self.end
    }

    /// The part of the text from position `pos_start` up to, not including, `pos_end`.
    ///
    /// Both positions have to be positions of bytes of the text. Where `pos_start` is not,
    /// or else `pos_end` is not, the result is the report that `pos_start` is out of
    /// bounds.
    pub fn get_at_pos(&self, pos_start: BytePos, pos_end: BytePos) -> (part: Result<&str, String>)
        requires
            self.wf(),
            self.contains(pos_start as nat) && self.contains(pos_end as nat) ==> {
                &&& pos_start <= pos_end
                &&& is_char_boundary(self.bytes(), pos_start - self.start())
                &&& is_char_boundary(self.bytes(), pos_end - self.start())
            },
        ensures
            match part {
                Ok(text) => {
                    &&& self.contains(pos_start as nat)
                    &&& self.contains(pos_end as nat)
                    &&& vstd::utf8::encode_utf8(text@) == self.bytes().subrange(
                        pos_start - self.start(),
                        pos_end - self.start(),
                    )
                },
                Err(report) => {
                    &&& !(self.contains(pos_start as nat) && self.contains(pos_end as nat))
                    &&& report@ == out_of_bounds(pos_start as nat)
                },
            },
    {
        if !self.contains_pos(pos_start) {
            return Err(out_of_bounds_report(pos_start));
        }
        if !self.contains_pos(pos_end) {
            return Err(out_of_bounds_report(pos_start));
        }
        let rel_start = pos_start - self.start;
        let rel_end = pos_end - self.start;
        let content: &str = &*self.content;
        let ghost bytes = self.bytes();
        proof {
            encode_utf8_valid_utf8(self.text());
            valid_utf8_split(bytes, rel_start as int);
        }
        let (_, tail) = content.split_at(rel_start);
        proof {
            let rest = bytes.subrange(rel_start as int, bytes.len() as int);
            encode_utf8_valid_utf8(tail@);
            assert(rest[rel_end - rel_start] == bytes[rel_end as int]);
            is_char_boundary_iff_not_is_continuation_byte(bytes, rel_end as int);
            is_char_boundary_iff_not_is_continuation_byte(rest, rel_end - rel_start);
        }
        let (text, _) = tail.split_at(rel_end - rel_start);
        assert(vstd::utf8::encode_utf8(text@) =~= bytes.subrange(
            rel_start as int,
            rel_end as int,
        ));
        Ok(text)
    }
}

/// A source file that has been looked at: its path and, unless it is a directory, its
/// text.
#[derive(Debug)]
pub struct SourceFile {
    /// Where the file lies in the project.
    pub path: ModulePath,
    /// The text of the file; a directory has none.
    pub source_code: Option<SourceCode>,
}

impl SourceFile {
    /// Whether `pos` is the position of a byte of the file's text. No position lies in a
    /// directory.
    pub open spec fn holds(&self, pos: nat) -> bool {
        match self.source_code {
            Some(code) => code.contains(pos),
            None => false,
        }
    }

    /// The position behind the last byte of the file's text; `0` for a directory.
    pub open spec fn text_end(&self) -> nat {
        match self.source_code {
            Some(code) => code.end(),
            None => 0,
        }
    }

    /// Whether no position lies in the texts of both files.
    pub open spec fn apart_from(&self, other: &SourceFile) -> bool {
        forall|pos: nat| !(#[trigger] self.holds(pos) && other.holds(pos))
    }

    /// The file that `deferred` stands for, with the text that was read from it, placed
    /// at `offset`. A directory has no text.
    pub fn new(deferred: &DeferredSourceFile, offset: usize, content: Option<Rc<str>>) -> (file:
        Self)
        requires
            content matches Some(data) ==> offset + vstd::utf8::encode_utf8(data@).len()
                <= usize::MAX,
        ensures
            file.path@ == deferred.path@,
            match content {
                Some(data) => {
                    &&& file.source_code matches Some(code)
                    &&& code.wf()
                    &&& code.start() == offset
                    &&& code.text() == data@
                },
                None => file.source_code is None,
            },
    {
        let path = deferred.path.clone();
        let source_code = match content {
            Some(data) => Some(SourceCode::new(offset, data)),
            None => None,
        };
        Self { path, source_code }
    }

    /// The position at which the text of the file starts; `None` for a directory.
    pub fn get_offset(&self) -> (offset: Option<BytePos>)
        ensures
            offset == match self.source_code {
                Some(code) => Some(code.start() as usize),
                None => None,
            },
    {
        if let Some(source_code) = &self.source_code {
            Some(source_code.get_start())
        } else {
            None
        }
    }

    /// Whether `pos` is the position of a byte of the file's text. No position lies in a
    /// directory.
    pub fn source_contains_pos(&self, pos: BytePos) -> (inside: bool)
        ensures
            inside == self.holds(pos as nat),
    {
        if let Some(source_code) = &self.source_code {
            source_code.contains_pos(pos)
        } else {
            false
        }
    }

    /// Hands the text of the file to `callback`, and does nothing for a directory. Returns
    /// the file itself. Where the file has text, `callback` has run on it, so what
    /// `callback` ensures of that run holds.
    pub fn with_source_code<F: Fn(&SourceCode)>(&self, callback: F) -> (file: &Self)
        requires
            self.source_code matches Some(code) ==> callback.requires((&code,)),
        ensures
            file == self,
            self.source_code matches Some(code) ==> callback.ensures((&code,), ()),
    {
        if let Some(source_code) = &self.source_code {
            callback(source_code)
        }
        self
    }
}

impl SourceFile {
    /// The file written out: nothing is shown of it.
    pub fn to_string(&self) -> (text: String)
        ensures
            text@ == Seq::<char>::empty(),
    {
        String::new()
    }
}

impl Label for SourceFile {
    open spec fn label_text(&self) -> Seq<char> {
        Seq::empty()
    }

    fn label(&self) -> (text: String) {
        self.to_string()
    }
}

impl Clone for SourceCode {
    fn clone(&self) -> (copy: Self)
        ensures
            copy == *self,
    {
        Self { start: self.start, end: self.end, content: self.content.clone() }
    }
}

impl Clone for SourceFile {
    fn clone(&self) -> (copy: Self)
        ensures
            copy == *self,
    {
        let source_code = match &self.source_code {
            Some(code) => Some(code.clone()),
            None => None,
        };
        Self { path: self.path.clone(), source_code }
    }
}

} // verus!
