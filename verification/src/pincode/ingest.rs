use crate::text::{text_of_chars, text_of_utf8, trim_end, trimmed_len};
use crate::vault::{PinCodeChunk, Status, StatusView, Code};
use vstd::prelude::*;
use vstd::utf8::*;

verus! {

/// The character that ends a line of an upload.
pub const NEWLINE: char = '\n';

/// The lines that `text` completes: for each newline in it, the characters
/// between the newline before and that one.
pub open spec fn lines_of(text: Seq<char>) -> Seq<Seq<char>>
    decreases text.len(),
{
    if text.len() == 0 {
        Seq::empty()
    } else if text.last() == NEWLINE {
        lines_of(text.drop_last()).push(tail_of(text.drop_last()))
    } else {
        lines_of(text.drop_last())
    }
}

/// What follows the last newline of `text`: the line that `text` has begun
/// and not completed.
pub open spec fn tail_of(text: Seq<char>) -> Seq<char>
    decreases text.len(),
{
    if text.len() == 0 || text.last() == NEWLINE {
        Seq::empty()
    } else {
        tail_of(text.drop_last()).push(text.last())
    }
}

/// Whether `text` holds no newline.
pub open spec fn unbroken(text: Seq<char>) -> bool {
    forall|i: int| 0 <= i < text.len() ==> text[i] != NEWLINE
}

/// Each of `lines` without its trailing white space.
pub open spec fn trimmed(lines: Seq<Seq<char>>) -> Seq<Seq<char>> {
    lines.map_values(|line: Seq<char>| trim_end(line))
}

/// A text without a newline completes no line and is its own tail.
pub proof fn lemma_unbroken(text: Seq<char>)
    requires
        unbroken(text),
    ensures
        lines_of(text) == Seq::<Seq<char>>::empty(),
        tail_of(text) == text,
    decreases text.len(),
{
    if text.len() > 0 {
        lemma_unbroken(text.drop_last());
        assert(text.drop_last().push(text.last()) =~= text);
    } else {
        assert(text =~= Seq::empty());
    }
}

/// The tail of a text holds no newline.
pub proof fn lemma_tail_unbroken(text: Seq<char>)
    ensures
        unbroken(tail_of(text)),
    decreases text.len(),
{
    if text.len() > 0 && text.last() != NEWLINE {
        lemma_tail_unbroken(text.drop_last());
    }
}

/// Where a text is cut in two does not matter: the lines of the whole are
/// the lines of the first part, then the lines of what the first part left
/// open followed by the second part; and the tails agree.
pub proof fn lemma_lines_of_parts(first: Seq<char>, second: Seq<char>)
    ensures
        lines_of(first + second) == lines_of(first) + lines_of(tail_of(first) + second),
        tail_of(first + second) == tail_of(tail_of(first) + second),
    decreases second.len(),
{
    if second.len() == 0 {
        assert(first + second =~= first);
        assert(tail_of(first) + second =~= tail_of(first));
        lemma_tail_unbroken(first);
        lemma_unbroken(tail_of(first));
        assert(lines_of(first) + Seq::<Seq<char>>::empty() =~= lines_of(first));
    } else {
        let whole = first + second;
        let open = tail_of(first) + second;
        lemma_lines_of_parts(first, second.drop_last());
        assert(whole.drop_last() =~= first + second.drop_last());
        assert(open.drop_last() =~= tail_of(first) + second.drop_last());
        assert(whole.last() == second.last());
        assert(open.last() == second.last());
        if second.last() == NEWLINE {
            assert(lines_of(first) + lines_of(open.drop_last()).push(tail_of(open.drop_last()))
                =~= (lines_of(first) + lines_of(open.drop_last())).push(
                tail_of(open.drop_last()),
            ));
        }
    }
}

/// Puts the lines of a text together from the pieces it arrives in. It
/// holds the line that the pieces so far have begun and not completed.
pub struct LineAssembler {
    pending: Vec<char>,
}

impl View for LineAssembler {
    type V = Seq<char>;

    closed spec fn view(&self) -> Seq<char> {
        self.pending@
    }
}

impl LineAssembler {
    #[verifier::type_invariant]
    spec fn pending_is_unbroken(self) -> bool {
        unbroken(self.pending@)
    }

    /// An assembler that has seen no text.
    pub fn new() -> (assembler: Self)
        ensures
            assembler@ == Seq::<char>::empty(),
    {
        LineAssembler { pending: Vec::new() }
    }

    /// Takes the next piece of text and gives back, trimmed, the lines it
    /// completes.
    pub fn push_text(&mut self, text: &str) -> (lines: Vec<String>)
        ensures
            final(self)@ == tail_of(old(self)@ + text@),
            lines.deep_view() == trimmed(lines_of(old(self)@ + text@)),
    {
        proof {
            use_type_invariant(&*self);
            lemma_unbroken(self.pending@);
            assert(self.pending@ + text@.take(0) =~= self.pending@);
        }
        let ghost before = self.pending@;
        let mut pending: Vec<char> = Vec::new();
        std::mem::swap(&mut pending, &mut self.pending);
        let mut lines: Vec<String> = Vec::new();
        assert(lines.deep_view() =~= trimmed(lines_of(before + text@.take(0))));
        for c in it: text.chars()
            invariant
                it.seq() == text@,
                pending@ == tail_of(before + text@.take(it.index() as int)),
                lines.deep_view() == trimmed(lines_of(before + text@.take(it.index() as int))),
                self.pending@ == Seq::<char>::empty(),
        {
            let ghost seen = before + text@.take(it.index() as int);
            let ghost next = before + text@.take(it.index() + 1);
            assert(next.drop_last() =~= seen);
            assert(next.last() == c);
            if c == NEWLINE {
                let len = trimmed_len(&pending);
                let line = text_of_chars(&pending, len);
                let ghost earlier = lines.deep_view();
                lines.push(line);
                assert(lines.deep_view() =~= earlier.push(trim_end(pending@)));
                assert(trimmed(lines_of(next)) =~= trimmed(lines_of(seen)).push(
                    trim_end(tail_of(seen)),
                ));
                pending.clear();
            } else {
                pending.push(c);
            }
        }
        assert(text@.take(text@.len() as int) =~= text@);
        proof {
            lemma_tail_unbroken(before + text@);
        }
        self.pending = pending;
        lines
    }

    /// Takes the next chunk of an upload and gives back, trimmed, the lines
    /// it completes. A chunk that is not valid UTF-8 is refused and leaves
    /// the assembler as it was.
    pub fn push_chunk(&mut self, chunk: Vec<u8>) -> (lines: Result<Vec<String>, Status>)
        ensures
            match lines {
                Ok(completed) => {
                    &&& valid_utf8(chunk@)
                    &&& final(self)@ == tail_of(old(self)@ + decode_utf8(chunk@))
                    &&& completed.deep_view() == trimmed(
                        lines_of(old(self)@ + decode_utf8(chunk@)),
                    )
                },
                Err(status) => {
                    &&& !valid_utf8(chunk@)
                    &&& final(self)@ == old(self)@
                    &&& status@ == unreadable_chunk()
                },
            },
    {
        match text_of_utf8(chunk) {
            Some(text) => Ok(self.push_text(text.as_str())),
            None => Err(Status::invalid_argument("Chunk is not valid UTF-8")),
        }
    }

    /// Ends the text: the line left open, trimmed, if it holds anything.
    pub fn finish(self) -> (line: Option<String>)
        ensures
            match line {
                Some(last) => self@.len() > 0 && last@ == trim_end(self@),
                None => self@.len() == 0,
            },
    {
        if self.pending.len() == 0 {
            None
        } else {
            let len = trimmed_len(&self.pending);
            Some(text_of_chars(&self.pending, len))
        }
    }
}

/// The failure of an upload with a chunk that is not valid UTF-8.
pub open spec fn unreadable_chunk() -> StatusView {
    StatusView { code: Code::InvalidArgument, message: "Chunk is not valid UTF-8"@ }
}

/// The bytes of each of `chunks`.
pub open spec fn contents(chunks: Seq<PinCodeChunk>) -> Seq<Seq<u8>> {
    chunks.map_values(|chunk: PinCodeChunk| chunk.content@)
}

/// How many of `chunks` can be read: those before the first that is not
/// valid UTF-8.
pub open spec fn readable_chunks(chunks: Seq<Seq<u8>>) -> nat
    decreases chunks.len(),
{
    if chunks.len() == 0 {
        0
    } else {
        let before = readable_chunks(chunks.drop_last());
        if before == chunks.len() - 1 && valid_utf8(chunks.last()) {
            before + 1
        } else {
            before
        }
    }
}

/// The text that `chunks` hold, one after the other.
pub open spec fn text_of_chunks(chunks: Seq<Seq<u8>>) -> Seq<char>
    decreases chunks.len(),
{
    if chunks.len() == 0 {
        Seq::empty()
    } else {
        text_of_chunks(chunks.drop_last()) + decode_utf8(chunks.last())
    }
}

/// The lines of a text that has come to its end, each trimmed: the lines
/// it completes and, where it ends in a line without a newline, that line
/// too.
pub open spec fn lines_of_whole(text: Seq<char>) -> Seq<Seq<char>> {
    if tail_of(text).len() > 0 {
        trimmed(lines_of(text)).push(trim_end(tail_of(text)))
    } else {
        trimmed(lines_of(text))
    }
}

/// The lines that an upload of `chunks` gives, each trimmed. Where every
/// chunk can be read, they are the lines of the whole text; where one
/// cannot, they are the lines completed by the text before that chunk.
pub open spec fn upload_lines(chunks: Seq<Seq<u8>>) -> Seq<Seq<char>> {
    let readable = readable_chunks(chunks);
    let text = text_of_chunks(chunks.take(readable as int));
    if readable == chunks.len() {
        lines_of_whole(text)
    } else {
        trimmed(lines_of(text))
    }
}

/// A line that follows a line's end, and is ended by a newline itself, is
/// the next line of the text; until it is ended, it is the text's tail.
pub proof fn lemma_line_by_line(before: Seq<char>, line: Seq<char>)
    requires
        before.len() == 0 || before.last() == NEWLINE,
        unbroken(line),
    ensures
        tail_of(before + line) == line,
        lines_of(before + line) == lines_of(before),
        lines_of((before + line).push(NEWLINE)) == lines_of(before).push(line),
        tail_of((before + line).push(NEWLINE)) == Seq::<char>::empty(),
{
    lemma_lines_of_parts(before, line);
    lemma_unbroken(line);
    assert(tail_of(before) + line =~= line);
    assert(lines_of(before) + Seq::<Seq<char>>::empty() =~= lines_of(before));
    assert((before + line).push(NEWLINE).drop_last() =~= before + line);
}

/// The text of chunks that follow one another is the text of the first
/// ones followed by the text of the others.
pub proof fn lemma_text_of_chunks_joined(first: Seq<Seq<u8>>, second: Seq<Seq<u8>>)
    ensures
        text_of_chunks(first + second) == text_of_chunks(first) + text_of_chunks(second),
    decreases second.len(),
{
    if second.len() == 0 {
        assert(first + second =~= first);
        assert(text_of_chunks(first) + Seq::<char>::empty() =~= text_of_chunks(first));
    } else {
        lemma_text_of_chunks_joined(first, second.drop_last());
        assert((first + second).drop_last() =~= first + second.drop_last());
        assert(text_of_chunks(first) + (text_of_chunks(second.drop_last()) + decode_utf8(
            second.last(),
        )) =~= (text_of_chunks(first) + text_of_chunks(second.drop_last())) + decode_utf8(
            second.last(),
        ));
    }
}

/// An upload whose chunks can all be read gives the lines of its text,
/// wherever the text was cut into chunks: two such uploads with the same
/// text give the same lines.
pub proof fn lemma_upload_lines_by_text(chunks: Seq<Seq<u8>>, others: Seq<Seq<u8>>)
    requires
        readable_chunks(chunks) == chunks.len(),
        readable_chunks(others) == others.len(),
        text_of_chunks(chunks) == text_of_chunks(others),
    ensures
        upload_lines(chunks) == lines_of_whole(text_of_chunks(chunks)),
        upload_lines(chunks) == upload_lines(others),
{
    assert(chunks.take(chunks.len() as int) =~= chunks);
    assert(others.take(others.len() as int) =~= others);
}

/// The bytes that `chunks` hold, one after the other.
pub open spec fn bytes_of_chunks(chunks: Seq<Seq<u8>>) -> Seq<u8>
    decreases chunks.len(),
{
    if chunks.len() == 0 {
        Seq::empty()
    } else {
        bytes_of_chunks(chunks.drop_last()) + chunks.last()
    }
}

/// The encoding of two texts joined is the two encodings joined.
pub proof fn lemma_encoding_joined(first: Seq<char>, second: Seq<char>)
    ensures
        encode_utf8(first + second) == encode_utf8(first) + encode_utf8(second),
    decreases first.len(),
{
    if first.len() == 0 {
        assert(first + second =~= second);
        assert(encode_utf8(first) + encode_utf8(second) =~= encode_utf8(second));
    } else {
        lemma_encoding_joined(first.drop_first(), second);
        assert((first + second).drop_first() =~= first.drop_first() + second);
        assert(encode_scalar(first[0] as u32) + (encode_utf8(first.drop_first()) + encode_utf8(
            second,
        )) =~= (encode_scalar(first[0] as u32) + encode_utf8(first.drop_first())) + encode_utf8(
            second,
        ));
    }
}

/// Two pieces of valid UTF-8, joined, are valid UTF-8, and hold the text of
/// the first followed by the text of the second.
pub proof fn lemma_decoding_joined(first: Seq<u8>, second: Seq<u8>)
    requires
        valid_utf8(first),
        valid_utf8(second),
    ensures
        valid_utf8(first + second),
        decode_utf8(first + second) == decode_utf8(first) + decode_utf8(second),
{
    valid_utf8_concat(first, second);
    decode_utf8_encode_utf8(first);
    decode_utf8_encode_utf8(second);
    lemma_encoding_joined(decode_utf8(first), decode_utf8(second));
    encode_utf8_decode_utf8(decode_utf8(first) + decode_utf8(second));
}

/// Where every chunk can be read, the chunks' bytes, one after the other,
/// are valid UTF-8, and the chunks' text is the text of those bytes.
pub proof fn lemma_text_of_bytes(chunks: Seq<Seq<u8>>)
    requires
        readable_chunks(chunks) == chunks.len(),
    ensures
        valid_utf8(bytes_of_chunks(chunks)),
        text_of_chunks(chunks) == decode_utf8(bytes_of_chunks(chunks)),
    decreases chunks.len(),
{
    if chunks.len() > 0 {
        lemma_readable_chunks(chunks.drop_last(), 0);
        lemma_text_of_bytes(chunks.drop_last());
        lemma_decoding_joined(bytes_of_chunks(chunks.drop_last()), chunks.last());
    }
}

/// Where an upload is cut into chunks does not matter, as long as every
/// chunk can be read: two such uploads of the same bytes give the same
/// lines.
pub proof fn lemma_upload_lines_by_bytes(chunks: Seq<Seq<u8>>, others: Seq<Seq<u8>>)
    requires
        readable_chunks(chunks) == chunks.len(),
        readable_chunks(others) == others.len(),
        bytes_of_chunks(chunks) == bytes_of_chunks(others),
    ensures
        upload_lines(chunks) == lines_of_whole(decode_utf8(bytes_of_chunks(chunks))),
        upload_lines(chunks) == upload_lines(others),
{
    lemma_text_of_bytes(chunks);
    lemma_text_of_bytes(others);
    lemma_upload_lines_by_text(chunks, others);
}

/// A text that ends in a line without a newline has that line, trimmed, as
/// its last line.
pub proof fn lemma_open_line_counts(text: Seq<char>)
    requires
        tail_of(text).len() > 0,
    ensures
        lines_of_whole(text).len() == lines_of(text).len() + 1,
        lines_of_whole(text).last() == trim_end(tail_of(text)),
        lines_of_whole(text).drop_last() == trimmed(lines_of(text)),
{
    assert(lines_of_whole(text).drop_last() =~= trimmed(lines_of(text)));
}

/// No more chunks can be read than there are, and chunks that follow one
/// that cannot be read are not read either.
pub proof fn lemma_readable_chunks(chunks: Seq<Seq<u8>>, n: int)
    requires
        0 <= n <= chunks.len(),
    ensures
        readable_chunks(chunks) <= chunks.len(),
        readable_chunks(chunks.take(n)) < n ==> readable_chunks(chunks) == readable_chunks(
            chunks.take(n),
        ),
    decreases chunks.len(),
{
    if chunks.len() > 0 {
        lemma_readable_chunks(chunks.drop_last(), if n < chunks.len() { n } else { n - 1 });
        if n < chunks.len() {
            assert(chunks.drop_last().take(n) =~= chunks.take(n));
        } else {
            assert(chunks.take(n) =~= chunks);
        }
    }
}

/// Reads an upload: the lines of its text, each trimmed, and the failure
/// to read it to its end, if there is one. Reading stops at the first chunk
/// that is not valid UTF-8; the lines completed before it still count.
pub fn assemble_upload(chunks: &Vec<PinCodeChunk>) -> (upload: (Vec<String>, Option<Status>))
    ensures
        upload.0.deep_view() == upload_lines(contents(chunks@)),
        upload.1 is None <==> readable_chunks(contents(chunks@)) == chunks@.len(),
        upload.1 matches Some(status) ==> status@ == unreadable_chunk(),
{
    let ghost all = contents(chunks@);
    let mut assembler = LineAssembler::new();
    let mut lines: Vec<String> = Vec::new();
    let mut i: usize = 0;
    assert(all.take(0) =~= Seq::<Seq<u8>>::empty());
    assert(lines.deep_view() =~= trimmed(lines_of(Seq::<char>::empty())));
    while i < chunks.len()
        invariant
            i <= chunks@.len(),
            all == contents(chunks@),
            readable_chunks(all.take(i as int)) == i,
            assembler@ == tail_of(text_of_chunks(all.take(i as int))),
            lines.deep_view() == trimmed(lines_of(text_of_chunks(all.take(i as int)))),
        decreases chunks@.len() - i,
    {
        let ghost seen = text_of_chunks(all.take(i as int));
        assert(all.take(i + 1).drop_last() =~= all.take(i as int));
        assert(all.take(i + 1).last() == chunks@[i as int].content@);
        let ghost text = decode_utf8(chunks@[i as int].content@);
        let mut completed = match assembler.push_chunk(chunks[i].content.clone()) {
            Ok(completed) => completed,
            Err(status) => {
                proof {
                    lemma_readable_chunks(all, i + 1);
                }
                return (lines, Some(status));
            },
        };
        let ghost earlier = lines.deep_view();
        let ghost added = completed.deep_view();
        lines.append(&mut completed);
        proof {
            lemma_lines_of_parts(seen, text);
            assert(lines.deep_view() =~= earlier + added);
            assert(trimmed(lines_of(seen) + lines_of(tail_of(seen) + text)) =~= trimmed(
                lines_of(seen),
            ) + trimmed(lines_of(tail_of(seen) + text)));
        }
        i = i + 1;
    }
    assert(all.take(i as int) =~= all);
    let ghost earlier = lines.deep_view();
    match assembler.finish() {
        Some(last) => {
            lines.push(last);
            assert(lines.deep_view() =~= earlier.push(last@));
        },
        None => {},
    }
    (lines, None)
}

} // verus!
