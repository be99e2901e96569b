//! The messages exchanged between the input generator server and the proving
//! client: broadcast commands, the text and binary WebSocket frames, and the
//! input file names that carry block numbers.

use vstd::prelude::*;
use vstd::string::*;
use vstd::utf8::*;

use crate::path::{
    file_stem, lemma_joined_file_name, lemma_last_dot_is, spec_file_stem, spec_join,
};
use crate::text::{
    chars_eq_str, chars_of, concat_str, decimal, is_digit, is_ws, lemma_decimal,
    lemma_parse_decimal, lemma_words_cons, lemma_words_single, no_ws, parse_u64,
    parse_u64_chars, spec_parse_u64, split_words, string_of, u64_to_decimal, words,
};

verus! {

broadcast use vstd::utf8::encode_utf8_decode_utf8, vstd::utf8::encode_utf8_valid_utf8;

/// The name of the input file of block `n`: its decimal number and `.bin`.
pub open spec fn input_name(n: nat) -> Seq<char> {
    decimal(n) + ".bin"@
}

/// The text that announces that `block` is queued.
pub open spec fn queued_text(block: Seq<char>) -> Seq<char> {
    "queued "@ + block
}

/// The text that announces the input file `name`.
pub open spec fn input_text(name: Seq<char>) -> Seq<char> {
    "input "@ + name
}

/// Input file name of a block (`{n}.bin`).
pub fn input_file_name(block_number: u64) -> (s: String)
    ensures
        s@ == input_name(block_number as nat),
{
    let d = u64_to_decimal(block_number);
    concat_str(d.as_str(), ".bin")
}

/// The broadcast command announcing that a block is queued (`queued {n}`).
pub fn queued_command(block_number: u64) -> (s: String)
    ensures
        s@ == queued_text(decimal(block_number as nat)),
{
    let d = u64_to_decimal(block_number);
    concat_str("queued ", d.as_str())
}

/// The text frame forwarded to clients for a queued block word (`queued {block}`).
pub fn queued_notice(block: &str) -> (s: String)
    ensures
        s@ == queued_text(block@),
{
    concat_str("queued ", block)
}

/// The broadcast command announcing a block's input file (`input {n}.bin`).
pub fn input_command(block_number: u64) -> (s: String)
    ensures
        s@ == input_text(input_name(block_number as nat)),
{
    let f = input_file_name(block_number);
    concat_str("input ", f.as_str())
}

/// A broadcast command as the server's client handlers read it.
pub enum Broadcast<S> {
    /// `queued` and a block word.
    Queued(S),
    /// `input` and a file name.
    Input(S),
    /// Anything else.
    Unknown,
}

impl<S: View> View for Broadcast<S> {
    type V = Broadcast<S::V>;

    open spec fn view(&self) -> Broadcast<S::V> {
        match self {
            Broadcast::Queued(b) => Broadcast::Queued(b@),
            Broadcast::Input(f) => Broadcast::Input(f@),
            Broadcast::Unknown => Broadcast::Unknown,
        }
    }
}

/// A command is exactly two words: `queued` or `input`, and its argument.
pub open spec fn spec_broadcast(s: Seq<char>) -> Broadcast<Seq<char>> {
    let w = words(s);
    if w.len() == 2 && w[0] == "queued"@ {
        Broadcast::Queued(w[1])
    } else if w.len() == 2 && w[0] == "input"@ {
        Broadcast::Input(w[1])
    } else {
        Broadcast::Unknown
    }
}

/// Reads a broadcast command.
pub fn parse_broadcast_command(command: &str) -> (r: Broadcast<String>)
    ensures
        r@ == spec_broadcast(command@),
{
    let cs = chars_of(command);
    let w = split_words(&cs);
    if w.len() == 2 {
        if chars_eq_str(&w[0], "queued") {
            return Broadcast::Queued(string_of(w[1].as_slice()));
        }
        if chars_eq_str(&w[0], "input") {
            return Broadcast::Input(string_of(w[1].as_slice()));
        }
    }
    Broadcast::Unknown
}

/// A text command as the proving client reads it.
#[derive(PartialEq, Eq, Structural, Debug, Clone, Copy)]
pub enum TextCommand {
    /// No words at all.
    Empty,
    /// `queued` and a block number.
    Queued(u64),
    /// `queued` with nothing after it.
    QueuedWithoutBlock,
    /// `queued` followed by a word that is not a block number.
    QueuedBadBlock,
    /// Any other first word.
    Unknown,
}

/// The first word decides; a `queued` command takes its block number from the
/// second word, and further words are not read.
pub open spec fn spec_text_command(s: Seq<char>) -> TextCommand {
    let w = words(s);
    if w.len() == 0 {
        TextCommand::Empty
    } else if w[0] == "queued"@ {
        if w.len() < 2 {
            TextCommand::QueuedWithoutBlock
        } else {
            match spec_parse_u64(w[1]) {
                Some(n) => TextCommand::Queued(n),
                None => TextCommand::QueuedBadBlock,
            }
        }
    } else {
        TextCommand::Unknown
    }
}

/// Reads a text frame received from the input generator server.
pub fn classify_text_command(command: &str) -> (r: TextCommand)
    ensures
        r == spec_text_command(command@),
{
    let cs = chars_of(command);
    let w = split_words(&cs);
    if w.len() == 0 {
        return TextCommand::Empty;
    }
    if !chars_eq_str(&w[0], "queued") {
        return TextCommand::Unknown;
    }
    if w.len() < 2 {
        return TextCommand::QueuedWithoutBlock;
    }
    match parse_u64_chars(&w[1]) {
        Some(n) => TextCommand::Queued(n),
        None => TextCommand::QueuedBadBlock,
    }
}

/// How the client reads every text frame, by its words: no words is an empty
/// command; a first word other than `queued` is unknown; `queued` alone lacks
/// its block; `queued` and a second word gives the block that word is the
/// decimal number of, whatever follows, and otherwise a bad block.
pub proof fn law_text_commands(s: Seq<char>)
    ensures
        words(s).len() == 0 ==> spec_text_command(s) == TextCommand::Empty,
        words(s).len() > 0 && words(s)[0] != "queued"@ ==> spec_text_command(s)
            == TextCommand::Unknown,
        words(s).len() == 1 && words(s)[0] == "queued"@ ==> spec_text_command(s)
            == TextCommand::QueuedWithoutBlock,
        words(s).len() >= 2 && words(s)[0] == "queued"@ ==> spec_text_command(s) == (
        match spec_parse_u64(words(s)[1]) {
            Some(n) => TextCommand::Queued(n),
            None => TextCommand::QueuedBadBlock,
        }),
{
}

/// How the server's handlers read every broadcast, by its words: exactly
/// `queued` and one word, or `input` and one word; anything else is unknown.
pub proof fn law_broadcasts(s: Seq<char>)
    ensures
        words(s).len() == 2 && words(s)[0] == "queued"@ ==> spec_broadcast(s) == Broadcast::Queued(
            words(s)[1],
        ),
        words(s).len() == 2 && words(s)[0] == "input"@ ==> spec_broadcast(s) == Broadcast::Input(
            words(s)[1],
        ),
        !(words(s).len() == 2 && (words(s)[0] == "queued"@ || words(s)[0] == "input"@))
            ==> spec_broadcast(s) == Broadcast::<Seq<char>>::Unknown,
{
    reveal_strlit("queued");
    reveal_strlit("input");
    assert("input"@ != "queued"@) by {
        assert("input"@[0] != "queued"@[0]);
    }
}

/// The binary frame that carries an input file: its name, a newline, and its content.
pub open spec fn spec_frame(name: Seq<char>, content: Seq<u8>) -> Seq<u8> {
    encode_utf8(name) + seq![10u8] + content
}

/// True when `i` is the position of the first newline byte of `data`.
pub open spec fn is_first_newline(data: Seq<u8>, i: int) -> bool {
    &&& 0 <= i < data.len()
    &&& data[i] == 10
    &&& forall|j: int| 0 <= j < i ==> #[trigger] data[j] != 10
}

/// The name and content carried by a binary frame: the bytes before the first
/// newline must be UTF-8 and give the name; the bytes after it are the content.
pub open spec fn spec_parse_message(data: Seq<u8>) -> Option<(Seq<char>, Seq<u8>)> {
    if exists|i: int| is_first_newline(data, i) {
        let i = choose|i: int| is_first_newline(data, i);
        if valid_utf8(data.take(i)) {
            Some((decode_utf8(data.take(i)), data.skip(i + 1)))
        } else {
            None
        }
    } else {
        None
    }
}

/// `std::str::from_utf8`: it succeeds exactly on valid UTF-8, and the string it
/// returns has the given bytes as its encoding.
#[verifier::external_body]
fn str_from_utf8(bytes: &[u8]) -> (r: Option<&str>)
    ensures
        match r {
            Some(s) => valid_utf8(bytes@) && s.spec_bytes() == bytes@,
            None => !valid_utf8(bytes@),
        },
{
    std::str::from_utf8(bytes).ok()
}

/// Frames an input file for sending (`{name}\n{content}`).
pub fn frame_input_message(name: &str, content: &[u8]) -> (r: Vec<u8>)
    ensures
        r@ == spec_frame(name@, content@),
{
    let nb = name.as_bytes();
    let mut out: Vec<u8> = Vec::new();
    let mut i: usize = 0;
    while i < nb.len()
        invariant
            i <= nb@.len(),
            out@ == nb@.take(i as int),
        decreases nb@.len() - i,
    {
        out.push(nb[i]);
        i = i + 1;
        assert(out@ =~= nb@.take(i as int));
    }
    assert(out@ =~= nb@);
    out.push(10u8);
    let ghost head = out@;
    let mut j: usize = 0;
    while j < content.len()
        invariant
            j <= content@.len(),
            out@ == head + content@.take(j as int),
        decreases content@.len() - j,
    {
        out.push(content[j]);
        j = j + 1;
        assert(out@ =~= head + content@.take(j as int));
    }
    assert(content@.take(j as int) =~= content@);
    out
}

proof fn lemma_first_newline_unique(data: Seq<u8>, i: int, j: int)
    requires
        is_first_newline(data, i),
        is_first_newline(data, j),
    ensures
        i == j,
{
    if i < j {
        assert(data[i] != 10);
    } else if j < i {
        assert(data[j] != 10);
    }
}

/// Splits a binary frame into the file name and the file content.
pub fn parse_message(data: &[u8]) -> (r: Option<(&str, &[u8])>)
    ensures
        match r {
            Some((name, content)) => spec_parse_message(data@) == Some((name@, content@)),
            None => spec_parse_message(data@) is None,
        },
{
    let mut i: usize = 0;
    while i < data.len() && data[i] != 10u8
        invariant
            i <= data@.len(),
            forall|j: int| 0 <= j < i ==> #[trigger] data@[j] != 10,
        decreases data@.len() - i,
    {
        i = i + 1;
    }
    if i == data.len() {
        assert(!exists|k: int| is_first_newline(data@, k));
        return None;
    }
    assert(is_first_newline(data@, i as int));
    proof {
        let k = choose|k: int| is_first_newline(data@, k);
        lemma_first_newline_unique(data@, i as int, k);
    }
    let (name, rest) = data.split_at(i);
    let content = &rest[1..rest.len()];
    assert(name@ =~= data@.take(i as int));
    assert(content@ =~= data@.skip(i + 1));
    match str_from_utf8(name) {
        None => None,
        Some(name_str) => Some((name_str, content)),
    }
}

/// The bytes of the UTF-8 encoding of a text without newlines hold no newline byte.
pub proof fn lemma_encode_no_newline(name: Seq<char>)
    requires
        forall|i: int| 0 <= i < name.len() ==> #[trigger] name[i] != '\n',
    ensures
        forall|j: int| 0 <= j < encode_utf8(name).len() ==> #[trigger] encode_utf8(name)[j] != 10,
    decreases name.len(),
{
    if name.len() > 0 {
        let rest = name.drop_first();
        lemma_encode_no_newline(rest);
        let c = name[0] as u32;
        assert(c != 10) by {
            assert('\n' as u32 == 10);
            char_u32_cast('\n', 10u32);
            char_u32_cast(name[0], c);
        }
        let e = encode_scalar(c);
        assert forall|j: int| 0 <= j < e.len() implies #[trigger] e[j] != 10 by {
            if has_width_1_encoding(c) {
                assert(c != 10 && c <= 0x7f ==> (c & 0x7f) as u8 != 10u8) by (bit_vector);
            } else {
                assert(0x80u8 | ((c >> 6) & 0x1F) as u8 >= 0x80u8) by (bit_vector);
                assert(0xC0u8 | ((c >> 6) & 0x1F) as u8 >= 0x80u8) by (bit_vector);
                assert(0xE0u8 | ((c >> 12) & 0x0F) as u8 >= 0x80u8) by (bit_vector);
                assert(0xF0u8 | ((c >> 18) & 0x7) as u8 >= 0x80u8) by (bit_vector);
                assert(0x80u8 | (c & 0x3F) as u8 >= 0x80u8) by (bit_vector);
                assert(0x80u8 | ((c >> 6) & 0x3F) as u8 >= 0x80u8) by (bit_vector);
                assert(0x80u8 | ((c >> 12) & 0x3F) as u8 >= 0x80u8) by (bit_vector);
            }
        }
        assert(encode_utf8(name) == e + encode_utf8(rest));
        assert forall|j: int| 0 <= j < encode_utf8(name).len() implies #[trigger] encode_utf8(
            name,
        )[j] != 10 by {
            if j < e.len() {
                assert(encode_utf8(name)[j] == e[j]);
            } else {
                assert(encode_utf8(name)[j] == encode_utf8(rest)[j - e.len()]);
            }
        }
    }
}

/// A framed input file is read back as the same name and content, provided the
/// name holds no newline.
pub proof fn law_frame_round_trip(name: Seq<char>, content: Seq<u8>)
    requires
        forall|i: int| 0 <= i < name.len() ==> #[trigger] name[i] != '\n',
    ensures
        spec_parse_message(spec_frame(name, content)) == Some((name, content)),
{
    let data = spec_frame(name, content);
    let bytes = encode_utf8(name);
    let i = bytes.len() as int;
    lemma_encode_no_newline(name);
    assert(data[i] == 10);
    assert forall|j: int| 0 <= j < i implies #[trigger] data[j] != 10 by {
        assert(data[j] == bytes[j]);
    }
    assert(is_first_newline(data, i));
    let k = choose|k: int| is_first_newline(data, k);
    lemma_first_newline_unique(data, i, k);
    assert(data.take(i) =~= bytes);
    assert(data.skip(i + 1) =~= content);
}

/// A block word forwarded as a `queued` notice is read back as the same word.
pub proof fn law_queued_notice_round_trip(block: Seq<char>)
    requires
        block.len() > 0,
        no_ws(block),
    ensures
        spec_broadcast(queued_text(block)) == Broadcast::Queued(block),
{
    reveal_strlit("queued ");
    reveal_strlit("queued");
    reveal_strlit("input");
    let q = "queued"@;
    assert(queued_text(block) =~= q + seq![' '] + block);
    assert(no_ws(q));
    lemma_words_cons(q, ' ', block);
    lemma_words_single(block);
    assert(words(queued_text(block)) =~= seq![q, block]);
}

/// The `queued` command of a block number is read by the server's client
/// handlers as that block's decimal word, and by the proving client as that
/// block number.
pub proof fn law_queued_command_round_trip(n: u64)
    ensures
        spec_broadcast(queued_text(decimal(n as nat))) == Broadcast::Queued(decimal(n as nat)),
        spec_text_command(queued_text(decimal(n as nat))) == TextCommand::Queued(n),
{
    reveal_strlit("queued ");
    reveal_strlit("queued");
    lemma_decimal(n as nat);
    lemma_parse_decimal(n);
    let d = decimal(n as nat);
    assert(no_ws(d)) by {
        assert forall|i: int| 0 <= i < d.len() implies !is_ws(#[trigger] d[i]) by {
            assert(is_digit(d[i]));
        }
    }
    law_queued_notice_round_trip(d);
    let q = "queued"@;
    assert(queued_text(d) =~= q + seq![' '] + d);
    lemma_words_cons(q, ' ', d);
    lemma_words_single(d);
    assert(words(queued_text(d)) =~= seq![q, d]);
}

/// The `input` command of a block is read by the server's client handlers as
/// that block's input file name.
pub proof fn law_input_command_round_trip(n: u64)
    ensures
        spec_broadcast(input_text(input_name(n as nat))) == Broadcast::Input(input_name(n as nat)),
{
    reveal_strlit("input ");
    reveal_strlit("input");
    reveal_strlit("queued");
    reveal_strlit(".bin");
    lemma_decimal(n as nat);
    let f = input_name(n as nat);
    let d = decimal(n as nat);
    assert(no_ws(f)) by {
        assert forall|i: int| 0 <= i < f.len() implies !is_ws(#[trigger] f[i]) by {
            if i < d.len() {
                assert(f[i] == d[i]);
                assert(is_digit(d[i]));
            }
        }
    }
    let w = "input"@;
    assert(input_text(f) =~= w + seq![' '] + f);
    assert(no_ws(w));
    lemma_words_cons(w, ' ', f);
    lemma_words_single(f);
    assert(words(input_text(f)) =~= seq![w, f]);
    assert(w != "queued"@) by {
        assert(w[0] != "queued"@[0]);
    }
}

/// The block number that an input file path names: the stem of its last
/// component, read as a `u64`.
pub open spec fn spec_input_block_number(path: Seq<char>) -> Option<u64> {
    match spec_file_stem(path) {
        Some(stem) => spec_parse_u64(stem),
        None => None,
    }
}

/// The block number named by the stem of an input file path.
pub fn input_block_number(path: &str) -> (r: Option<u64>)
    ensures
        r == spec_input_block_number(path@),
{
    match file_stem(path) {
        None => None,
        Some(stem) => parse_u64(stem.as_str()),
    }
}

/// Wherever a block's input file is saved, the client reads the block number
/// back from the saved path.
pub proof fn law_input_path_round_trip(folder: Seq<char>, n: u64)
    ensures
        spec_input_block_number(spec_join(folder, input_name(n as nat))) == Some(n),
{
    reveal_strlit(".bin");
    lemma_decimal(n as nat);
    lemma_parse_decimal(n);
    let d = decimal(n as nat);
    let f = input_name(n as nat);
    let ext = seq!['b', 'i', 'n'];
    assert(f =~= d + seq!['.'] + ext);
    assert forall|i: int| 0 <= i < f.len() implies #[trigger] f[i] != '/' by {
        if i < d.len() {
            assert(f[i] == d[i]);
            assert(is_digit(d[i]));
        }
    }
    assert(f != seq!['.']) by {
        assert(f.len() > 1);
    }
    assert(f != seq!['.', '.']) by {
        assert(f.len() > 2);
    }
    lemma_joined_file_name(folder, f);
    lemma_last_dot_is(d, ext);
    assert(f.take(d.len() as int) =~= d);
}


/// An input file announced by the server reaches the client intact: the
/// server's handlers read the `input` command as the block's file name, frame
/// that file with its content, the client reads the same name and content back
/// from the frame, and wherever it saves the file, the saved path names the
/// block.
pub proof fn law_input_delivery(folder: Seq<char>, n: u64, content: Seq<u8>)
    ensures
        spec_broadcast(input_text(input_name(n as nat))) == Broadcast::Input(input_name(n as nat)),
        spec_parse_message(spec_frame(input_name(n as nat), content)) == Some(
            (input_name(n as nat), content),
        ),
        spec_input_block_number(spec_join(folder, input_name(n as nat))) == Some(n),
{
    reveal_strlit(".bin");
    lemma_decimal(n as nat);
    let d = decimal(n as nat);
    let f = input_name(n as nat);
    assert forall|i: int| 0 <= i < f.len() implies #[trigger] f[i] != '\n' by {
        if i < d.len() {
            assert(f[i] == d[i]);
            assert(is_digit(d[i]));
        }
    }
    law_input_command_round_trip(n);
    law_frame_round_trip(f, content);
    law_input_path_round_trip(folder, n);
}

} // verus!
