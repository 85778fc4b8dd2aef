//! The tail reader: following a growing file from its end, line by line.
//!
//! The reader never touches the file. Whoever owns the file reads the bytes at
//! the reader's offset and feeds them in; the reader keeps what follows the
//! last line feed until the rest of that line arrives, and reports each line
//! once its line feed has been read.

use vstd::prelude::*;

verus! {

/// The byte that ends a line.
pub const LINE_FEED: u8 = 10;

/// The byte that may stand before the line feed and is then no part of the line.
pub const CARRIAGE_RETURN: u8 = 13;

/// Whether a line feed stands anywhere in `bytes`.
pub open spec fn has_line_feed(bytes: Seq<u8>) -> bool {
    exists|i: int| 0 <= i < bytes.len() && bytes[i] == LINE_FEED
}

/// Index of the first line feed in `bytes`; `bytes.len()` when there is none.
pub open spec fn first_line_feed(bytes: Seq<u8>) -> int
    decreases bytes.len(),
{
    if bytes.len() == 0 || bytes[0] == LINE_FEED {
        0
    } else {
        1 + first_line_feed(bytes.skip(1))
    }
}

/// A line's content: the bytes before its line feed, without one carriage
/// return at their end.
pub open spec fn line_content(raw: Seq<u8>) -> Seq<u8> {
    if raw.len() > 0 && raw.last() == CARRIAGE_RETURN {
        raw.drop_last()
    } else {
        raw
    }
}

/// The lines of `bytes` that a line feed ends, first to last, each as the
/// bytes that stand before its line feed.
pub open spec fn raw_lines(bytes: Seq<u8>) -> Seq<Seq<u8>>
    decreases bytes.len(),
{
    let at = first_line_feed(bytes);
    if 0 <= at < bytes.len() {
        seq![bytes.take(at)] + raw_lines(bytes.skip(at + 1))
    } else {
        Seq::empty()
    }
}

/// The lines of `bytes` that a line feed ends, first to last, each by its content.
pub open spec fn complete_lines(bytes: Seq<u8>) -> Seq<Seq<u8>> {
    raw_lines(bytes).map_values(|raw: Seq<u8>| line_content(raw))
}

/// What follows the last line feed of `bytes`: the beginning of a line whose
/// end has not been read.
pub open spec fn unfinished(bytes: Seq<u8>) -> Seq<u8>
    decreases bytes.len(),
{
    let at = first_line_feed(bytes);
    if 0 <= at < bytes.len() {
        unfinished(bytes.skip(at + 1))
    } else {
        bytes
    }
}

/// The bytes of `lines` written one after the other, each followed by a line feed.
pub open spec fn terminated(lines: Seq<Seq<u8>>) -> Seq<u8>
    decreases lines.len(),
{
    if lines.len() == 0 {
        Seq::empty()
    } else {
        lines[0].push(LINE_FEED) + terminated(lines.skip(1))
    }
}

/// The byte sequences that a vector of lines holds.
pub open spec fn line_views(lines: Seq<Vec<u8>>) -> Seq<Seq<u8>> {
    lines.map_values(|line: Vec<u8>| line@)
}

/// `first_line_feed` points at the first line feed, or past the end.
pub proof fn lemma_first_line_feed(bytes: Seq<u8>)
    ensures
        0 <= first_line_feed(bytes) <= bytes.len(),
        forall|i: int| 0 <= i < first_line_feed(bytes) ==> bytes[i] != LINE_FEED,
        first_line_feed(bytes) < bytes.len() ==> bytes[first_line_feed(bytes)] == LINE_FEED,
        first_line_feed(bytes) < bytes.len() <==> has_line_feed(bytes),
    decreases bytes.len(),
{
    if bytes.len() == 0 || bytes[0] == LINE_FEED {
    } else {
        let rest = bytes.skip(1);
        lemma_first_line_feed(rest);
        assert forall|i: int| 0 <= i < first_line_feed(bytes) implies bytes[i] != LINE_FEED by {
            if i > 0 {
                assert(rest[i - 1] == bytes[i]);
            }
        }
        if has_line_feed(bytes) {
            let i = choose|i: int| 0 <= i < bytes.len() && bytes[i] == LINE_FEED;
            assert(rest[i - 1] == bytes[i]);
        }
    }
}

/// Bytes without a line feed hold no complete line and are unfinished as a whole.
pub proof fn lemma_no_line_feed(bytes: Seq<u8>)
    requires
        !has_line_feed(bytes),
    ensures
        raw_lines(bytes) == Seq::<Seq<u8>>::empty(),
        complete_lines(bytes) == Seq::<Seq<u8>>::empty(),
        unfinished(bytes) == bytes,
{
    lemma_first_line_feed(bytes);
}

/// What is left unfinished holds no line feed.
pub proof fn lemma_unfinished_has_no_line_feed(bytes: Seq<u8>)
    ensures
        !has_line_feed(unfinished(bytes)),
    decreases bytes.len(),
{
    lemma_first_line_feed(bytes);
    let at = first_line_feed(bytes);
    if at < bytes.len() {
        lemma_unfinished_has_no_line_feed(bytes.skip(at + 1));
    }
}

/// The first line feed of `head + tail` is that of `head`, where `head` has one.
proof fn lemma_first_line_feed_of_concat(head: Seq<u8>, tail: Seq<u8>)
    requires
        has_line_feed(head),
    ensures
        first_line_feed(head + tail) == first_line_feed(head),
    decreases head.len(),
{
    lemma_first_line_feed(head);
    if head[0] == LINE_FEED {
    } else {
        let i = choose|i: int| 0 <= i < head.len() && head[i] == LINE_FEED;
        assert(head.skip(1)[i - 1] == head[i]);
        assert((head + tail).skip(1) =~= head.skip(1) + tail);
        lemma_first_line_feed_of_concat(head.skip(1), tail);
    }
}

/// Splitting loses nothing and cuts only at line feeds: the complete lines as
/// they stand, each followed by a line feed, and then what is unfinished, are
/// `bytes` again; and no line feed stands inside a line or in what is
/// unfinished.
pub proof fn lemma_split_is_exact(bytes: Seq<u8>)
    ensures
        terminated(raw_lines(bytes)) + unfinished(bytes) == bytes,
        forall|i: int|
            0 <= i < raw_lines(bytes).len() ==> !has_line_feed(#[trigger] raw_lines(bytes)[i]),
        !has_line_feed(unfinished(bytes)),
    decreases bytes.len(),
{
    lemma_first_line_feed(bytes);
    lemma_unfinished_has_no_line_feed(bytes);
    let at = first_line_feed(bytes);
    if at < bytes.len() {
        let first = bytes.take(at);
        let rest = bytes.skip(at + 1);
        lemma_split_is_exact(rest);
        assert(raw_lines(bytes).skip(1) =~= raw_lines(rest));
        assert(terminated(raw_lines(bytes)) + unfinished(bytes) =~= first.push(LINE_FEED) + (
        terminated(raw_lines(rest)) + unfinished(rest)));
        assert forall|i: int| 0 <= i < raw_lines(bytes).len() implies !has_line_feed(
            #[trigger] raw_lines(bytes)[i],
        ) by {
            if i == 0 && has_line_feed(first) {
                let k = choose|k: int| 0 <= k < first.len() && first[k] == LINE_FEED;
                assert(bytes[k] == first[k]);
            }
        }
    }
}

/// There is one way only to split: where `lines` and `rest` hold no line
/// feed, the bytes that they make when written out have exactly `lines` as
/// their complete lines and `rest` as what is unfinished.
pub proof fn lemma_split_is_unique(lines: Seq<Seq<u8>>, rest: Seq<u8>)
    requires
        forall|i: int| 0 <= i < lines.len() ==> !has_line_feed(#[trigger] lines[i]),
        !has_line_feed(rest),
    ensures
        raw_lines(terminated(lines) + rest) == lines,
        unfinished(terminated(lines) + rest) == rest,
    decreases lines.len(),
{
    let bytes = terminated(lines) + rest;
    if lines.len() == 0 {
        lemma_no_line_feed(rest);
    } else {
        let first = lines[0];
        let others = lines.skip(1);
        let after = terminated(others) + rest;
        lemma_first_line_feed(bytes);
        assert(bytes[first.len() as int] == LINE_FEED);
        let at = first_line_feed(bytes);
        assert(bytes.take(at) =~= first);
        assert(bytes.skip(at + 1) =~= after);
        assert forall|i: int| 0 <= i < others.len() implies !has_line_feed(
            #[trigger] others[i],
        ) by {}
        lemma_split_is_unique(others, rest);
    }
}

/// Reading in pieces changes nothing, as the lines stand: see
/// [`lemma_lines_of_concat`].
proof fn lemma_raw_lines_of_concat(head: Seq<u8>, tail: Seq<u8>)
    ensures
        raw_lines(head + tail) == raw_lines(head) + raw_lines(unfinished(head) + tail),
        unfinished(head + tail) == unfinished(unfinished(head) + tail),
    decreases head.len(),
{
    lemma_first_line_feed(head);
    let at = first_line_feed(head);
    if at < head.len() {
        lemma_first_line_feed_of_concat(head, tail);
        assert((head + tail).take(at) =~= head.take(at));
        assert((head + tail).skip(at + 1) =~= head.skip(at + 1) + tail);
        lemma_raw_lines_of_concat(head.skip(at + 1), tail);
    }
}

/// Reading in pieces changes nothing: the lines of `head + tail` are the lines
/// of `head`, then the lines of what `head` left unfinished followed by `tail`;
/// and what is left unfinished in the end is the same either way.
pub proof fn lemma_lines_of_concat(head: Seq<u8>, tail: Seq<u8>)
    ensures
        complete_lines(head + tail) == complete_lines(head) + complete_lines(
            unfinished(head) + tail,
        ),
        unfinished(head + tail) == unfinished(unfinished(head) + tail),
{
    lemma_raw_lines_of_concat(head, tail);
}

/// One more byte after bytes without a line feed: a line feed completes them
/// as one line, any other byte joins them.
pub proof fn lemma_one_more_byte(open_line: Seq<u8>, byte: u8)
    requires
        !has_line_feed(open_line),
    ensures
        byte == LINE_FEED ==> complete_lines(open_line.push(byte)) == seq![line_content(open_line)]
            && unfinished(open_line.push(byte)) == Seq::<u8>::empty(),
        byte != LINE_FEED ==> complete_lines(open_line.push(byte)) == Seq::<Seq<u8>>::empty()
            && unfinished(open_line.push(byte)) == open_line.push(byte),
        byte != LINE_FEED ==> !has_line_feed(open_line.push(byte)),
{
    let all = open_line.push(byte);
    if byte == LINE_FEED {
        let nothing = Seq::<u8>::empty();
        assert(terminated(seq![open_line]) =~= all) by {
            assert(seq![open_line].skip(1) =~= Seq::<Seq<u8>>::empty());
            assert(terminated(Seq::<Seq<u8>>::empty()) =~= nothing);
        }
        lemma_split_is_unique(seq![open_line], nothing);
    } else {
        if has_line_feed(all) {
            let i = choose|i: int| 0 <= i < all.len() && all[i] == LINE_FEED;
            assert(open_line[i] == all[i]);
        }
        lemma_no_line_feed(all);
    }
}

/// The read cursor of a followed file.
///
/// `start` is the offset at which following began, `offset` the offset of the
/// next byte to read, and `pending` the bytes read since the last line feed.
pub struct TailReader {
    start: u64,
    offset: u64,
    pending: Vec<u8>,
}

/// What a [`TailReader`] stands for.
pub struct TailView {
    pub start: nat,
    pub offset: nat,
    pub pending: Seq<u8>,
}

impl View for TailReader {
    type V = TailView;

    closed spec fn view(&self) -> TailView {
        TailView { start: self.start as nat, offset: self.offset as nat, pending: self.pending@ }
    }
}

impl TailView {
    /// The cursor has not moved back, and the pending bytes are the beginning
    /// of one line.
    pub open spec fn wf(self) -> bool {
        &&& self.start <= self.offset <= u64::MAX
        &&& !has_line_feed(self.pending)
    }

    /// The reader after `data` has been read at its offset.
    pub open spec fn fed(self, data: Seq<u8>) -> TailView {
        TailView {
            start: self.start,
            offset: self.offset + data.len(),
            pending: unfinished(self.pending + data),
        }
    }

    /// The lines that reading `data` completes.
    pub open spec fn completed_by(self, data: Seq<u8>) -> Seq<Seq<u8>> {
        complete_lines(self.pending + data)
    }
}

impl TailReader {
    #[verifier::type_invariant]
    closed spec fn well_formed(&self) -> bool {
        self@.wf()
    }

    /// A reader at the end of a file of `file_len` bytes: following begins there.
    pub fn at_end(file_len: u64) -> (reader: TailReader)
        ensures
            reader@ == (TailView {
                start: file_len as nat,
                offset: file_len as nat,
                pending: Seq::empty(),
            }),
            reader@.wf(),
    {
        TailReader { start: file_len, offset: file_len, pending: Vec::new() }
    }

    /// The offset at which following began.
    pub fn start(&self) -> (start: u64)
        ensures
            start == self@.start,
    {
        self.start
    }

    /// The offset of the next byte to read.
    pub fn offset(&self) -> (offset: u64)
        ensures
            offset == self@.offset,
            self@.start <= offset,
    {
        proof {
            use_type_invariant(self);
        }
        self.offset
    }

    /// How many bytes of an unfinished line are held.
    pub fn pending_len(&self) -> (len: usize)
        ensures
            len == self@.pending.len(),
    {
        self.pending.len()
    }

    /// Whether `len` more bytes can be read without the offset leaving `u64`.
    pub fn has_room_for(&self, len: usize) -> (fits: bool)
        ensures
            fits == (self@.offset + len <= u64::MAX),
    {
        proof {
            use_type_invariant(self);
        }
        len as u64 <= u64::MAX - self.offset
    }

    /// Takes in the bytes read at the offset and reports the lines they complete.
    ///
    /// The lines are those of the pending bytes followed by `data`; what
    /// follows the last line feed stays pending, and the offset moves past
    /// `data`.
    pub fn feed(&mut self, data: &[u8]) -> (lines: Vec<Vec<u8>>)
        requires
            old(self)@.offset + data@.len() <= u64::MAX,
        ensures
            final(self)@.wf(),
            final(self)@ == old(self)@.fed(data@),
            line_views(lines@) == old(self)@.completed_by(data@),
    {
        proof {
            use_type_invariant(&*self);
        }
        let ghost before = self.pending@;
        let mut open_line: Vec<u8> = Vec::new();
        std::mem::swap(&mut open_line, &mut self.pending);
        let mut lines: Vec<Vec<u8>> = Vec::new();
        let mut i: usize = 0;
        proof {
            lemma_no_line_feed(before);
        }
        while i < data.len()
            invariant
                i <= data.len(),
                !has_line_feed(open_line@),
                open_line@ == unfinished(before + data@.take(i as int)),
                line_views(lines@) == complete_lines(before + data@.take(i as int)),
            decreases data.len() - i,
        {
            let byte: u8 = data[i];
            proof {
                let read = before + data@.take(i as int);
                assert(before + data@.take(i + 1) =~= read + seq![byte]);
                lemma_lines_of_concat(read, seq![byte]);
                assert(unfinished(read) + seq![byte] =~= open_line@.push(byte));
                lemma_one_more_byte(open_line@, byte);
            }
            if byte == LINE_FEED {
                let mut line: Vec<u8> = Vec::new();
                std::mem::swap(&mut line, &mut open_line);
                let len: usize = line.len();
                if len > 0 && line[len - 1] == CARRIAGE_RETURN {
                    line.pop();
                }
                lines.push(line);
            } else {
                open_line.push(byte);
            }
            i += 1;
        }
        assert(data@.take(data@.len() as int) =~= data@);
        self.pending = open_line;
        self.offset = self.offset + data.len() as u64;
        lines
    }
}

} // verus!
