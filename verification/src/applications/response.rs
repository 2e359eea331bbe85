//! HTTP responses as they stand on the wire.
use serde_json::Value;
use vstd::arithmetic::power::{lemma_pow_positive, pow};
use vstd::prelude::*;
use vstd::utf8::encode_utf8;
use crate::applications::message::{declared_length, ends_header, field_value, raw_name, Header};
use crate::encoding::{lowercase, to_lowercase};
use crate::json::{json_text, rendered};
use crate::number::{
    decimal, decimal_text, is_digit, law_digits_stand_in_their_places, law_number_round_trip,
    lemma_decimal_denotes, number_of,
};
use crate::table::{lemma_position, lemma_position_is, lemma_stored, listing_map, position, stored};
use crate::text::{
    copy_text, law_split_concat, lemma_split_single, lemma_trim_line, lemma_trimmed_ends, same_text,
    split, split_at_char, texts, trimmed,
};

verus! {

/// The contents of the fields of a header, in order.
pub open spec fn field_list(list: Seq<(Seq<char>, String)>) -> Seq<(Seq<char>, Seq<char>)> {
    Seq::new(list.len(), |i: int| (list[i].0, list[i].1@))
}

/// The first line of a response.
pub open spec fn status_line(status: u16) -> Seq<char> {
    "HTTP/1.1 "@ + decimal(status as nat) + "\r\n"@
}

/// The line of a field.
pub open spec fn field_line(name: Seq<char>, value: Seq<char>) -> Seq<char> {
    name + ":"@ + value + "\r\n"@
}

/// The lines of the fields.
pub open spec fn field_lines(fields: Seq<(Seq<char>, Seq<char>)>) -> Seq<char>
    decreases fields.len(),
{
    if fields.len() == 0 {
        Seq::empty()
    } else {
        field_lines(fields.drop_last()) + field_line(fields.last().0, fields.last().1)
    }
}

/// The header of a response: its fields and the blank line that ends it.
pub open spec fn header_text(fields: Seq<(Seq<char>, Seq<char>)>) -> Seq<char> {
    field_lines(fields) + "\r\n"@
}

/// The bytes of a response.
pub open spec fn message(
    status: u16,
    fields: Seq<(Seq<char>, Seq<char>)>,
    body: Seq<u8>,
) -> Seq<u8> {
    encode_utf8(status_line(status) + header_text(fields)) + body
}

/// `fields` with the length of the body, in bytes, declared.
pub open spec fn with_length(fields: Seq<(Seq<char>, Seq<char>)>, length: nat) -> Seq<
    (Seq<char>, Seq<char>),
> {
    stored(fields, "content-length"@, decimal(length))
}

/// The content type for the file name extension `lower`, given in lower case.
pub open spec fn content_type_for(lower: Seq<char>) -> Seq<char> {
    if lower == "html"@ {
        "text/html"@
    } else if lower == "js"@ {
        "application/javascript"@
    } else if lower == "css"@ {
        "text/css"@
    } else if lower == "png"@ {
        "image/png"@
    } else if lower == "jpg"@ {
        "image/jpeg"@
    } else if lower == "svg"@ {
        "image/svg+xml"@
    } else if lower == "gif"@ {
        "image/gif"@
    } else if lower == "ico"@ {
        "image/x-icon"@
    } else if lower == "ttf"@ {
        "font/ttf"@
    } else if lower == "otf"@ {
        "font/otf"@
    } else {
        "text/plain"@
    }
}

/// What follows the last dot of a path; the whole path where it has none.
pub open spec fn extension(path: Seq<char>) -> Seq<char> {
    split(path, '.').last()
}

/// Gives the content type for the file name extension `lower`, given in lower case.
pub fn content_type_of(lower: &str) -> (content_type: &'static str)
    ensures
        content_type@ == content_type_for(lower@),
{
    if same_text(lower, "html") {
        "text/html"
    } else if same_text(lower, "js") {
        "application/javascript"
    } else if same_text(lower, "css") {
        "text/css"
    } else if same_text(lower, "png") {
        "image/png"
    } else if same_text(lower, "jpg") {
        "image/jpeg"
    } else if same_text(lower, "svg") {
        "image/svg+xml"
    } else if same_text(lower, "gif") {
        "image/gif"
    } else if same_text(lower, "ico") {
        "image/x-icon"
    } else if same_text(lower, "ttf") {
        "font/ttf"
    } else if same_text(lower, "otf") {
        "font/otf"
    } else {
        "text/plain"
    }
}

/// Gives what follows the last dot of a path.
pub fn path_extension(path: &str) -> (end: String)
    ensures
        end@ == extension(path@),
{
    let pieces = split_at_char(path, '.');
    assert(texts(pieces@).last() == pieces@[pieces@.len() - 1]@);
    pieces[pieces.len() - 1].clone()
}

/// Storing a field stores its contents.
proof fn lemma_field_stored(list: Seq<(Seq<char>, String)>, name: Seq<char>, value: String)
    ensures
        field_list(stored(list, name, value)) == stored(field_list(list), name, value@),
{
    let fields = field_list(list);
    let at = position(list, name);
    lemma_position(list, name);
    assert forall|i: int| 0 <= i < at implies (#[trigger] fields[i]).0 != name by {
        assert(list[i].0 != name);
    }
    lemma_position_is(fields, name, at);
    assert(field_list(stored(list, name, value)) =~= stored(fields, name, value@));
}

/// A response while it is made up.
pub struct HttpResponse {
    pub status: u16,
    pub header: Header,
}

impl HttpResponse {
    /// The contents of the fields of the header, in order.
    pub open spec fn fields(&self) -> Seq<(Seq<char>, Seq<char>)> {
        field_list(self.header.listing())
    }

    /// A response.
    pub fn new(status: u16, header: Header) -> (response: Self)
        ensures
            response.status == status,
            response.header == header,
    {
        Self { status, header }
    }

    /// Sets the status code.
    pub fn set_status(&mut self, status: u16) -> (this: &mut Self)
        ensures
            this.status == status,
            this.header == old(self).header,
            *final(self) == *final(this),
    {
        self.status = status;
        self
    }

    /// Sets a field of the header, in place of the value that it had.
    pub fn set_header(&mut self, key: &str, value: &str) -> (this: &mut Self)
        ensures
            this.status == old(self).status,
            this.fields() == stored(old(self).fields(), key@, value@),
            *final(self) == *final(this),
    {
        let text = copy_text(value);
        proof {
            lemma_field_stored(self.header.listing(), key@, text);
        }
        self.header.insert(copy_text(key), text);
        self
    }

    /// The first line of the response.
    pub fn write_status(&self) -> (line: String)
        ensures
            line@ == status_line(self.status),
    {
        let mut line = copy_text("HTTP/1.1 ");
        line.append(decimal_text(self.status as u64).as_str());
        line.append("\r\n");
        line
    }

    /// The header of the response and the blank line that ends it.
    pub fn write_header(&self) -> (text: String)
        ensures
            text@ == header_text(self.fields()),
    {
        let mut text = String::new();
        let ghost fields = self.fields();
        let mut i: usize = 0;
        assert(fields.take(0) =~= Seq::<(Seq<char>, Seq<char>)>::empty());
        while i < self.header.len()
            invariant
                fields == self.fields(),
                i <= fields.len(),
                fields.len() == self.header.listing().len(),
                text@ == field_lines(fields.take(i as int)),
            decreases fields.len() - i,
        {
            let entry = self.header.entry(i);
            let ghost before = text@;
            text.append(entry.0.as_str());
            text.append(":");
            text.append(entry.1.as_str());
            text.append("\r\n");
            proof {
                assert(fields[i as int] == (entry.0@, entry.1@));
                assert(fields.take(i + 1).drop_last() == fields.take(i as int));
                assert(text@ =~= before + field_line(entry.0@, entry.1@));
            }
            i += 1;
        }
        assert(fields.take(i as int) == fields);
        text.append("\r\n");
        text
    }

    /// The bytes of the response with `body`.
    fn compose(&self, body: &[u8]) -> (bytes: Vec<u8>)
        ensures
            bytes@ == message(self.status, self.fields(), body@),
    {
        let mut head = self.write_status();
        head.append(self.write_header().as_str());
        let mut bytes: Vec<u8> = Vec::new();
        bytes.extend_from_slice(head.as_str().as_bytes());
        bytes.extend_from_slice(body);
        assert(bytes@ =~= message(self.status, self.fields(), body@));
        bytes
    }

    /// Declares the length of the body.
    fn declare_length(&mut self, length: usize)
        ensures
            final(self).status == old(self).status,
            final(self).fields() == with_length(old(self).fields(), length as nat),
    {
        let text = decimal_text(length as u64);
        self.set_header("content-length", text.as_str());
    }

    /// The bytes of the response with a text as its body; the header declares the length of
    /// the body.
    pub fn write(&mut self, data: &str) -> (bytes: Vec<u8>)
        ensures
            final(self).status == old(self).status,
            final(self).fields() == with_length(old(self).fields(), encode_utf8(data@).len()),
            bytes@ == message(old(self).status, final(self).fields(), encode_utf8(data@)),
            number_of(listing_map(final(self).fields())["content-length"@]) == Some(
                encode_utf8(data@).len() as usize,
            ),
    {
        let body = data.as_bytes();
        proof {
            law_length_is_declared(self.fields(), body@.len() as usize, Seq::empty());
        }
        self.declare_length(body.len());
        self.compose(body)
    }

    /// The bytes of the response with a JSON value as its body; the header declares the
    /// length of the body.
    pub fn write_value(&mut self, value: Value) -> (bytes: Vec<u8>)
        ensures
            final(self).status == old(self).status,
            final(self).fields() == with_length(
                old(self).fields(),
                encode_utf8(rendered(value)).len(),
            ),
            bytes@ == message(
                old(self).status,
                final(self).fields(),
                encode_utf8(rendered(value)),
            ),
    {
        let text = json_text(&value);
        self.write(text.as_str())
    }

    /// The bytes of the response with the file `path` as its body, `buffer` being what the
    /// file holds; the header declares the type that the name of the file tells, and the
    /// length of the body.
    pub fn write_file(&mut self, path: &str, buffer: &Vec<u8>) -> (bytes: Vec<u8>)
        ensures
            final(self).status == old(self).status,
            final(self).fields() == with_length(
                stored(
                    old(self).fields(),
                    "content-type"@,
                    content_type_for(lowercase(extension(path@))),
                ),
                buffer@.len(),
            ),
            bytes@ == message(old(self).status, final(self).fields(), buffer@),
            number_of(listing_map(final(self).fields())["content-length"@]) == Some(
                buffer@.len() as usize,
            ),
    {
        proof {
            let kind = content_type_for(lowercase(extension(path@)));
            law_length_is_declared(
                stored(self.fields(), "content-type"@, kind),
                buffer@.len() as usize,
                Seq::empty(),
            );
        }
        self.write_sized_file(path, buffer.len() as u64, buffer)
    }

    /// The bytes of the response with the contents of a file as its body; the header declares
    /// the type that its name tells and the size that is given.
    pub fn write_sized_file(&mut self, path: &str, size: u64, buffer: &Vec<u8>) -> (bytes: Vec<u8>)
        ensures
            final(self).status == old(self).status,
            final(self).fields() == with_length(
                stored(
                    old(self).fields(),
                    "content-type"@,
                    content_type_for(lowercase(extension(path@))),
                ),
                size as nat,
            ),
            bytes@ == message(old(self).status, final(self).fields(), buffer@),
    {
        let content_type = Self::get_content_type(path_extension(path).as_str());
        self.set_header("content-type", content_type);
        let text = decimal_text(size);
        self.set_header("content-length", text.as_str());
        self.compose(buffer.as_slice())
    }

    /// The content type for a file name extension, in any letter case.
    pub fn get_content_type(extension: &str) -> (content_type: &'static str)
        ensures
            content_type@ == content_type_for(lowercase(extension@)),
    {
        content_type_of(to_lowercase(extension).as_str())
    }
}

/// A response that declares the length of its body is read with that length: the field has
/// the decimal notation of the length as its value, and no other.
pub proof fn law_declared_length_is_read(fields: Seq<(Seq<char>, Seq<char>)>, length: usize)
    ensures
        declared_length(
            listing_map(with_length(fields, length as nat)),
            "content-length"@,
        ) == length,
{
    lemma_stored(fields, "content-length"@, decimal(length as nat));
    law_number_round_trip(length);
}

/// A field that a response declares is read back from its line as it was written, provided
/// that its name and its value have neither a colon in them nor white space around them.
pub proof fn law_field_is_read_back(name: Seq<char>, value: Seq<char>)
    requires
        !name.contains(':'),
        !value.contains(':'),
        trimmed(name) == name,
        trimmed(value) == value,
    ensures
        trimmed(raw_name(field_line(name, value))) == name,
        field_value(field_line(name, value)) == value,
        !ends_header(field_line(name, value)),
{
    reveal_strlit(":");
    let core = name.push(':') + value;
    assert(name + ":"@ + value =~= core);
    assert(field_line(name, value) =~= core + "\r\n"@);
    lemma_trimmed_ends(name);
    lemma_trimmed_ends(value);
    lemma_trim_line(core);
    lemma_split_single(name, ':');
    lemma_split_single(value, ':');
    law_split_concat(name, value, ':');
}

/// The bytes of two texts, one after the other.
proof fn lemma_encode_concat(a: Seq<char>, b: Seq<char>)
    ensures
        encode_utf8(a + b) == encode_utf8(a) + encode_utf8(b),
    decreases a.len(),
{
    if a.len() == 0 {
        assert(a + b =~= b);
        assert(encode_utf8(a) + encode_utf8(b) =~= encode_utf8(b));
    } else {
        assert((a + b).drop_first() =~= a.drop_first() + b);
        assert((a + b)[0] == a[0]);
        lemma_encode_concat(a.drop_first(), b);
        assert(encode_utf8(a + b) =~= encode_utf8(a) + encode_utf8(b));
    }
}

/// The status is read back from a response: its first line is `HTTP/1.1`, a space, and a run of
/// digits that denote the status, with no zero in front. So responses with different statuses begin
/// with different lines. The fields and the blank line come after that, and the body last.
pub proof fn law_status_is_read_back(
    status: u16,
    other: u16,
    fields: Seq<(Seq<char>, Seq<char>)>,
    body: Seq<u8>,
) -> (digits: Seq<char>)
    ensures
        digits.len() > 0,
        forall|i: int| 0 <= i < digits.len() ==> '0' <= #[trigger] digits[i] <= '9',
        digits.len() > 1 ==> digits[0] != '0',
        number_of(digits) == Some(status as usize),
        forall|i: int|
            0 <= i < digits.len() ==> #[trigger] digits[digits.len() - 1 - i] as int == 48 + (
            status as int / pow(10, i as nat)) % 10,
        status_line(status) == "HTTP/1.1 "@ + digits + "\r\n"@,
        message(status, fields, body) == encode_utf8("HTTP/1.1 "@ + digits + "\r\n"@)
            + encode_utf8(header_text(fields)) + body,
        status != other ==> status_line(status) != status_line(other),
{
    let digits = decimal(status as nat);
    lemma_decimal_denotes(status as nat);
    law_number_round_trip(status as usize);
    law_digits_stand_in_their_places(status as nat);
    assert forall|i: int| 0 <= i < digits.len() implies '0' <= #[trigger] digits[i] <= '9' by {
        assert(is_digit(digits[i]));
    }
    if digits.len() > 1 {
        let top = (digits.len() - 1) as nat;
        assert(digits[digits.len() - 1 - top] as int == 48 + (status as int / pow(10, top)) % 10);
        lemma_pow_positive(10, top);
        reveal(pow);
        assert(pow(10, digits.len()) == 10 * pow(10, top));
        assert(1 <= status as int / pow(10, top) < 10) by (nonlinear_arith)
            requires
                pow(10, top) > 0,
                pow(10, top) <= status as int,
                (status as int) < 10 * pow(10, top),
        ;
    }
    lemma_encode_concat(status_line(status), header_text(fields));
    if status != other {
        lemma_decimal_denotes(other as nat);
        if status_line(status) == status_line(other) {
            let line = status_line(status);
            let start = "HTTP/1.1 "@.len() as int;
            let end = line.len() - "\r\n"@.len();
            assert(line.subrange(start, end) =~= decimal(status as nat));
            assert(status_line(other).subrange(start, end) =~= decimal(other as nat));
        }
    }
    digits
}

/// The header of a response is a line for each of its fields, in order, with a colon between the
/// name and the value, and a blank line at the end.
pub proof fn law_header_is_written_line_by_line(
    name: Seq<char>,
    value: Seq<char>,
    fields: Seq<(Seq<char>, Seq<char>)>,
)
    ensures
        header_text(Seq::empty()) == "\r\n"@,
        header_text(seq![(name, value)] + fields) == name + seq![':'] + value + "\r\n"@
            + header_text(fields),
{
    reveal_strlit(":");
    assert(":"@ =~= seq![':']);
    lemma_first_field(name, value, fields);
    let none = Seq::<(Seq<char>, Seq<char>)>::empty();
    assert(field_lines(none) =~= Seq::<char>::empty());
    assert(header_text(none) =~= "\r\n"@);
    assert(header_text(seq![(name, value)] + fields) =~= name + seq![':'] + value + "\r\n"@
        + header_text(fields));
}

proof fn lemma_first_field(
    name: Seq<char>,
    value: Seq<char>,
    fields: Seq<(Seq<char>, Seq<char>)>,
)
    ensures
        field_lines(seq![(name, value)] + fields) == field_line(name, value) + field_lines(fields),
    decreases fields.len(),
{
    let all = seq![(name, value)] + fields;
    if fields.len() == 0 {
        assert(all.drop_last() =~= fields);
        assert(all.last() == (name, value));
        assert(field_lines(fields) =~= Seq::<char>::empty());
        assert(field_lines(all) =~= field_line(name, value) + field_lines(fields));
    } else {
        lemma_first_field(name, value, fields.drop_last());
        assert(all.drop_last() =~= seq![(name, value)] + fields.drop_last());
        assert(all.last() == fields.last());
        assert(field_lines(all) =~= field_line(name, value) + field_lines(fields));
    }
}

/// Declaring the length of the body changes that field only, and the field denotes the length.
pub proof fn law_length_is_declared(
    fields: Seq<(Seq<char>, Seq<char>)>,
    length: usize,
    name: Seq<char>,
)
    ensures
        ({
            let before = listing_map(fields);
            let after = listing_map(with_length(fields, length as nat));
            &&& after.contains_key("content-length"@)
            &&& number_of(after["content-length"@]) == Some(length)
            &&& name != "content-length"@ ==> {
                &&& after.contains_key(name) == before.contains_key(name)
                &&& before.contains_key(name) ==> after[name] == before[name]
            }
        }),
{
    lemma_stored(fields, "content-length"@, decimal(length as nat));
    law_number_round_trip(length);
}

/// The extension of a path is what follows its last dot, and all of it where it has none.
pub proof fn law_extension_follows_the_last_dot(base: Seq<char>, end: Seq<char>)
    requires
        !end.contains('.'),
    ensures
        extension(base + seq!['.'] + end) == end,
        extension(end) == end,
{
    lemma_split_single(end, '.');
    assert(base + seq!['.'] + end =~= base.push('.') + end);
    law_split_concat(base, end, '.');
}

/// Every extension that is known has its own content type, and any other is plain text.
pub proof fn law_content_types(lower: Seq<char>)
    ensures
        lower == "html"@ ==> content_type_for(lower) == "text/html"@,
        lower == "js"@ ==> content_type_for(lower) == "application/javascript"@,
        lower == "css"@ ==> content_type_for(lower) == "text/css"@,
        lower == "png"@ ==> content_type_for(lower) == "image/png"@,
        lower == "jpg"@ ==> content_type_for(lower) == "image/jpeg"@,
        lower == "svg"@ ==> content_type_for(lower) == "image/svg+xml"@,
        lower == "gif"@ ==> content_type_for(lower) == "image/gif"@,
        lower == "ico"@ ==> content_type_for(lower) == "image/x-icon"@,
        lower == "ttf"@ ==> content_type_for(lower) == "font/ttf"@,
        lower == "otf"@ ==> content_type_for(lower) == "font/otf"@,
        !seq![
            "html"@,
            "js"@,
            "css"@,
            "png"@,
            "jpg"@,
            "svg"@,
            "gif"@,
            "ico"@,
            "ttf"@,
            "otf"@,
        ].contains(lower) ==> content_type_for(lower) == "text/plain"@,
{
    reveal_strlit("html");
    reveal_strlit("js");
    reveal_strlit("css");
    reveal_strlit("png");
    reveal_strlit("jpg");
    reveal_strlit("svg");
    reveal_strlit("gif");
    reveal_strlit("ico");
    reveal_strlit("ttf");
    reveal_strlit("otf");
    assert("html"@.len() == 4 && "js"@.len() == 2 && "css"@.len() == 3 && "png"@.len() == 3
        && "jpg"@.len() == 3 && "svg"@.len() == 3 && "gif"@.len() == 3 && "ico"@.len() == 3
        && "ttf"@.len() == 3 && "otf"@.len() == 3);
    assert("css"@[0] == 'c' && "png"@[0] == 'p' && "jpg"@[0] == 'j' && "svg"@[0] == 's'
        && "gif"@[0] == 'g' && "ico"@[0] == 'i' && "ttf"@[0] == 't' && "otf"@[0] == 'o');
    let known = seq![
        "html"@,
        "js"@,
        "css"@,
        "png"@,
        "jpg"@,
        "svg"@,
        "gif"@,
        "ico"@,
        "ttf"@,
        "otf"@,
    ];
    assert(known[0] == "html"@ && known[1] == "js"@ && known[2] == "css"@ && known[3] == "png"@
        && known[4] == "jpg"@ && known[5] == "svg"@ && known[6] == "gif"@ && known[7] == "ico"@
        && known[8] == "ttf"@ && known[9] == "otf"@);
}

/// The contents of the fields of a header are the names and the texts of its entries, in order.
pub proof fn law_fields_are_listed_in_order(list: Seq<(Seq<char>, String)>)
    ensures
        field_list(list).len() == list.len(),
        forall|i: int|
            0 <= i < list.len() ==> (#[trigger] field_list(list)[i]).0 == list[i].0 && field_list(
                list,
            )[i].1 == list[i].1@,
{
}

} // verus!
