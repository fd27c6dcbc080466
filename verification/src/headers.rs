//! The header fields of a message: an ordered list of names, each with the raw
//! lines that were received or will be sent under it. Names are compared without
//! regard to ASCII case. What a field's lines mean is left to the `hyper` crate.

use hyper::header::Header;
use vstd::prelude::*;

verus! {

/// A character with an ASCII capital letter turned into its small one.
pub open spec fn lower(c: char) -> char {
    if 'A' <= c && c <= 'Z' {
        ((c as u8 + 32) as u8) as char
    } else {
        c
    }
}

/// A text with its ASCII capital letters turned into small ones.
pub open spec fn fold_case(s: Seq<char>) -> Seq<char> {
    s.map_values(|c: char| lower(c))
}

/// Whether two field names are the same but for ASCII case.
pub open spec fn same_name(a: Seq<char>, b: Seq<char>) -> bool {
    fold_case(a) == fold_case(b)
}

/// A character with an ASCII capital letter turned into its small one.
fn lower_char(c: char) -> (r: char)
    ensures
        r == lower(c),
{
    if 'A' <= c && c <= 'Z' {
        ((c as u8) + 32) as char
    } else {
        c
    }
}

/// Whether two field names are the same but for ASCII case.
fn eq_ignore_ascii_case(a: &str, b: &str) -> (r: bool)
    ensures
        r == same_name(a@, b@),
{
    let n = a.unicode_len();
    if b.unicode_len() != n {
        assert(fold_case(a@).len() != fold_case(b@).len());
        return false;
    }
    let mut i: usize = 0;
    while i < n
        invariant
            i <= n,
            n == a@.len(),
            n == b@.len(),
            forall|k: int| 0 <= k < i ==> lower(a@[k]) == lower(b@[k]),
        decreases n - i,
    {
        if lower_char(a.get_char(i)) != lower_char(b.get_char(i)) {
            assert(fold_case(a@)[i as int] != fold_case(b@)[i as int]);
            return false;
        }
        i += 1;
    }
    assert(fold_case(a@) =~= fold_case(b@));
    true
}

/// The lines of a list, each as its bytes.
pub open spec fn lines_view(lines: Vec<Vec<u8>>) -> Seq<Seq<u8>> {
    lines@.map_values(|line: Vec<u8>| line@)
}

/// The texts of a list, each as its characters.
pub open spec fn texts_view(texts: Vec<String>) -> Seq<Seq<char>> {
    texts@.map_values(|text: String| text@)
}

/// The texts of a list that may be missing.
pub open spec fn opt_texts_view(texts: Option<Vec<String>>) -> Option<Seq<Seq<char>>> {
    match texts {
        Some(texts) => Some(texts_view(texts)),
        None => None,
    }
}

/// One header field.
#[derive(Clone, Debug)]
pub struct Field {
    pub name: String,
    pub lines: Vec<Vec<u8>>,
}

/// Mathematical form of a [`Field`].
pub struct FieldView {
    pub name: Seq<char>,
    pub lines: Seq<Seq<u8>>,
}

impl View for Field {
    type V = FieldView;

    open spec fn view(&self) -> FieldView {
        FieldView { name: self.name@, lines: lines_view(self.lines) }
    }
}

/// The lines of the last field called `name`, if there is one.
pub open spec fn lookup(fields: Seq<FieldView>, name: Seq<char>) -> Option<Seq<Seq<u8>>>
    decreases fields.len(),
{
    if fields.len() == 0 {
        None
    } else if same_name(fields.last().name, name) {
        Some(fields.last().lines)
    } else {
        lookup(fields.drop_last(), name)
    }
}

/// The fields that are not called `name`, in their order.
pub open spec fn without(fields: Seq<FieldView>, name: Seq<char>) -> Seq<FieldView>
    decreases fields.len(),
{
    if fields.len() == 0 {
        Seq::empty()
    } else if same_name(fields.last().name, name) {
        without(fields.drop_last(), name)
    } else {
        without(fields.drop_last(), name).push(fields.last())
    }
}

/// The fields with `name` set to `lines`: every other field called so is gone,
/// and the new one stands last.
pub open spec fn with(fields: Seq<FieldView>, name: Seq<char>, lines: Seq<Seq<u8>>) -> Seq<
    FieldView,
> {
    without(fields, name).push(FieldView { name, lines })
}

/// The fields with one more line under `name`, behind those that it had.
pub open spec fn with_line(fields: Seq<FieldView>, name: Seq<char>, line: Seq<u8>) -> Seq<
    FieldView,
> {
    match lookup(fields, name) {
        Some(lines) => with(fields, name, lines.push(line)),
        None => with(fields, name, seq![line]),
    }
}

/// The decimal digits of a number, as ASCII.
pub open spec fn decimal_digits(n: nat) -> Seq<u8>
    decreases n,
{
    if n < 10 {
        seq![(48 + n) as u8]
    } else {
        decimal_digits(n / 10).push((48 + n % 10) as u8)
    }
}

/// The decimal digits of a number, as ASCII.
pub fn decimal(n: u64) -> (r: Vec<u8>)
    ensures
        r@ == decimal_digits(n as nat),
    decreases n,
{
    if n < 10 {
        let mut r: Vec<u8> = Vec::new();
        r.push(48 + n as u8);
        r
    } else {
        let mut r = decimal(n / 10);
        r.push(48 + (n % 10) as u8);
        r
    }
}

/// The value of a `Content-Length` field with the raw lines `lines`, as
/// `hyper::header::ContentLength` reads it. `None` where it reads none.
pub uninterp spec fn content_length_of(lines: Seq<Seq<u8>>) -> Option<u64>;

/// The codings of a `Transfer-Encoding` field with the raw lines `lines`, in their
/// order and by their names, as `hyper::header::TransferEncoding` reads them.
/// `None` where it reads none.
pub uninterp spec fn transfer_codings_of(lines: Seq<Seq<u8>>) -> Option<Seq<Seq<char>>>;

/// The top-level and the sub-level type of a `Content-Type` field with the raw
/// lines `lines`, by their names, as `hyper::header::ContentType` reads them.
/// `None` where it reads none.
pub uninterp spec fn media_type_of(lines: Seq<Seq<u8>>) -> Option<(Seq<char>, Seq<char>)>;

/// Whether every byte of every line is an ASCII character.
pub open spec fn ascii_lines(lines: Seq<Seq<u8>>) -> bool {
    forall|i: int, j: int|
        0 <= i < lines.len() && 0 <= j < lines[i].len() ==> #[trigger] lines[i][j] < 128
}

/// The media type that is read from a `Content-Type` field with the raw lines
/// `lines`: what `hyper` reads from them, and none where a line holds a byte that
/// is no ASCII character.
pub open spec fn media_type_in(lines: Seq<Seq<u8>>) -> Option<(Seq<char>, Seq<char>)> {
    if ascii_lines(lines) {
        media_type_of(lines)
    } else {
        None
    }
}

/// The cookies of a `Cookie` field with the raw lines `lines`, as
/// `hyper::header::Cookie` reads them. `None` where it reads none.
pub uninterp spec fn cookies_of(lines: Seq<Seq<u8>>) -> Option<Seq<Seq<char>>>;

/// Calls `parse_header` of `hyper::header::ContentLength` on the raw lines and
/// hands out the number it holds. The contract names the result.
#[verifier::external_body]
fn parse_content_length(lines: &Vec<Vec<u8>>) -> (r: Option<u64>)
    ensures
        r == content_length_of(lines_view(*lines)),
{
    hyper::header::ContentLength::parse_header(lines).ok().map(|h| h.0)
}

/// Calls `parse_header` of `hyper::header::TransferEncoding` on the raw lines and
/// hands out each coding as the text that `hyper` prints for it. The contract
/// names the result.
#[verifier::external_body]
fn parse_transfer_encoding(lines: &Vec<Vec<u8>>) -> (r: Option<Vec<String>>)
    ensures
        opt_texts_view(r) == transfer_codings_of(lines_view(*lines)),
{
    hyper::header::TransferEncoding::parse_header(lines).ok().map(
        |h| h.0.iter().map(|coding| coding.to_string()).collect(),
    )
}

/// Calls `parse_header` of `hyper::header::ContentType` on the raw lines and hands
/// out the two levels of the media type as the texts that `mime` prints for
/// them. The contract names the result. The lines must be ASCII: `mime` counts
/// characters and cuts the text at those counts as if they were bytes, which
/// fails on a text where the two differ.
#[verifier::external_body]
fn parse_content_type(lines: &Vec<Vec<u8>>) -> (r: Option<(String, String)>)
    requires
        ascii_lines(lines_view(*lines)),
    ensures
        media_type_of(lines_view(*lines)) == match r {
            Some((top, sub)) => Some((top@, sub@)),
            None => None,
        },
{
    hyper::header::ContentType::parse_header(lines).ok().map(
        |h| ((h.0).0.to_string(), (h.0).1.to_string()),
    )
}

/// Calls `parse_header` of `hyper::header::Cookie` on the raw lines and hands
/// out the cookies it holds. The contract names the result.
#[verifier::external_body]
fn parse_cookie(lines: &Vec<Vec<u8>>) -> (r: Option<Vec<String>>)
    ensures
        opt_texts_view(r) == cookies_of(lines_view(*lines)),
{
    hyper::header::Cookie::parse_header(lines).ok().map(|h| h.0)
}

/// Whether every byte of every line is an ASCII character.
fn is_ascii_lines(lines: &Vec<Vec<u8>>) -> (r: bool)
    ensures
        r == ascii_lines(lines_view(*lines)),
{
    let ghost all = lines_view(*lines);
    let mut i: usize = 0;
    while i < lines.len()
        invariant
            i <= lines.len(),
            all == lines_view(*lines),
            forall|k: int, j: int|
                0 <= k < i && 0 <= j < all[k].len() ==> #[trigger] all[k][j] < 128,
        decreases lines.len() - i,
    {
        let line = &lines[i];
        assert(all[i as int] == line@);
        let mut j: usize = 0;
        while j < line.len()
            invariant
                j <= line.len(),
                i < lines.len(),
                all == lines_view(*lines),
                all[i as int] == line@,
                forall|m: int| 0 <= m < j ==> #[trigger] line@[m] < 128,
            decreases line.len() - j,
        {
            if line[j] >= 128 {
                assert(all[i as int][j as int] >= 128);
                return false;
            }
            j += 1;
        }
        i += 1;
    }
    true
}

/// The header fields of a message.
#[derive(Clone, Debug)]
pub struct Headers {
    fields: Vec<Field>,
}

impl View for Headers {
    type V = Seq<FieldView>;

    closed spec fn view(&self) -> Seq<FieldView> {
        fields_view(self.fields)
    }
}

/// The fields of a list, each in its mathematical form.
pub open spec fn fields_view(fields: Vec<Field>) -> Seq<FieldView> {
    fields@.map_values(|field: Field| field@)
}

impl Headers {
    /// No fields.
    pub fn new() -> (h: Headers)
        ensures
            h@ == Seq::<FieldView>::empty(),
    {
        let h = Headers { fields: Vec::new() };
        assert(fields_view(h.fields) =~= Seq::<FieldView>::empty());
        h
    }

    /// The fields, in their order.
    pub fn fields(&self) -> (r: &Vec<Field>)
        ensures
            fields_view(*r) == self@,
    {
        &self.fields
    }

    /// The raw lines of the field called `name`.
    pub fn get_raw(&self, name: &str) -> (r: Option<&Vec<Vec<u8>>>)
        ensures
            lookup(self@, name@) == match r {
                Some(lines) => Some(lines_view(*lines)),
                None => None,
            },
    {
        let mut i: usize = self.fields.len();
        assert(self@.take(i as int) =~= self@);
        while i > 0
            invariant
                i <= self.fields.len(),
                lookup(self@, name@) == lookup(self@.take(i as int), name@),
            decreases i,
        {
            i -= 1;
            assert(self@.take(i + 1).last() == self.fields[i as int]@);
            assert(self@.take(i + 1).drop_last() =~= self@.take(i as int));
            if eq_ignore_ascii_case(self.fields[i].name.as_str(), name) {
                return Some(&self.fields[i].lines);
            }
        }
        assert(self@.take(0).len() == 0);
        None
    }

    /// Whether there is a field called `name`.
    pub fn has(&self, name: &str) -> (r: bool)
        ensures
            r == lookup(self@, name@).is_some(),
    {
        self.get_raw(name).is_some()
    }

    /// Takes away every field called `name`.
    pub fn remove(&mut self, name: &str)
        ensures
            final(self)@ == without(old(self)@, name@),
    {
        let mut kept: Vec<Field> = Vec::new();
        let mut rest: Vec<Field> = Vec::new();
        core::mem::swap(&mut self.fields, &mut rest);
        let ghost all = fields_view(rest);
        let n = rest.len();
        let mut i: usize = 0;
        assert(all.take(0) =~= Seq::<FieldView>::empty());
        assert(fields_view(kept) =~= Seq::<FieldView>::empty());
        while i < n
            invariant
                i <= n,
                n == rest.len(),
                all == fields_view(rest),
                fields_view(kept) == without(all.take(i as int), name@),
            decreases n - i,
        {
            assert(all.take(i + 1).last() == rest[i as int]@);
            assert(all.take(i + 1).drop_last() =~= all.take(i as int));
            if !eq_ignore_ascii_case(rest[i].name.as_str(), name) {
                let ghost before = fields_view(kept);
                let field = clone_field(&rest[i]);
                kept.push(field);
                assert(fields_view(kept) =~= before.push(rest[i as int]@));
            }
            i += 1;
        }
        assert(all.take(n as int) =~= all);
        self.fields = kept;
    }

    /// Sets the field called `name` to `lines`. Any field called so before is
    /// replaced; the new one stands last.
    pub fn set_raw(&mut self, name: &str, lines: Vec<Vec<u8>>)
        ensures
            final(self)@ == with(old(self)@, name@, lines_view(lines)),
    {
        self.remove(name);
        let ghost before = fields_view(self.fields);
        let field = Field { name: String::from_str(name), lines };
        self.fields.push(field);
        assert(fields_view(self.fields) =~= before.push(field@));
    }

    /// Adds one line to the field called `name`, which is made if there is none.
    pub fn append_raw(&mut self, name: &str, line: Vec<u8>)
        ensures
            final(self)@ == with_line(old(self)@, name@, line@),
    {
        let mut lines: Vec<Vec<u8>> = match self.get_raw(name) {
            Some(lines) => clone_lines(lines),
            None => Vec::new(),
        };
        let ghost before = lines_view(lines);
        lines.push(line);
        proof {
            assert(lines_view(lines) =~= before.push(line@));
            if lookup(self@, name@).is_none() {
                assert(before =~= Seq::<Seq<u8>>::empty());
                assert(lines_view(lines) =~= seq![line@]);
            }
        }
        self.set_raw(name, lines);
    }

    /// The value of the `Content-Length` field. `None` where there is no such field
    /// or `hyper` reads no number from it.
    pub fn content_length(&self) -> (r: Option<u64>)
        ensures
            r == match lookup(self@, "Content-Length"@) {
                Some(lines) => content_length_of(lines),
                None => None,
            },
    {
        match self.get_raw("Content-Length") {
            Some(lines) => parse_content_length(lines),
            None => None,
        }
    }

    /// The codings of the `Transfer-Encoding` field. `None` where there is no such
    /// field or `hyper` reads none from it.
    pub fn transfer_encoding(&self) -> (r: Option<Vec<String>>)
        ensures
            opt_texts_view(r) == match lookup(self@, "Transfer-Encoding"@) {
                Some(lines) => transfer_codings_of(lines),
                None => None,
            },
    {
        match self.get_raw("Transfer-Encoding") {
            Some(lines) => parse_transfer_encoding(lines),
            None => None,
        }
    }

    /// The media type of the `Content-Type` field, as its top-level and its
    /// sub-level type. `None` where there is no such field, where a line of it
    /// holds a byte that is no ASCII character, or where `hyper` reads none from
    /// it.
    pub fn content_type(&self) -> (r: Option<(String, String)>)
        ensures
            (match r {
                Some((top, sub)) => Some((top@, sub@)),
                None => None,
            }) == match lookup(self@, "Content-Type"@) {
                Some(lines) => media_type_in(lines),
                None => None,
            },
    {
        match self.get_raw("Content-Type") {
            Some(lines) => {
                if is_ascii_lines(lines) {
                    parse_content_type(lines)
                } else {
                    None
                }
            },
            None => None,
        }
    }

    /// The cookies of the `Cookie` field. None at all where there is no such field
    /// or `hyper` reads none from it.
    pub fn cookies(&self) -> (r: Vec<String>)
        ensures
            texts_view(r) == match lookup(self@, "Cookie"@) {
                Some(lines) => match cookies_of(lines) {
                    Some(cookies) => cookies,
                    None => Seq::empty(),
                },
                None => Seq::empty(),
            },
    {
        let parsed = match self.get_raw("Cookie") {
            Some(lines) => parse_cookie(lines),
            None => None,
        };
        match parsed {
            Some(cookies) => cookies,
            None => {
                let none: Vec<String> = Vec::new();
                assert(texts_view(none) =~= Seq::<Seq<char>>::empty());
                none
            },
        }
    }
}

/// A copy of a list of lines.
pub fn clone_lines(lines: &Vec<Vec<u8>>) -> (r: Vec<Vec<u8>>)
    ensures
        lines_view(r) == lines_view(*lines),
{
    let mut r: Vec<Vec<u8>> = Vec::new();
    let mut i: usize = 0;
    while i < lines.len()
        invariant
            i <= lines.len(),
            r.len() == i,
            forall|k: int| 0 <= k < i ==> r[k]@ == lines[k]@,
        decreases lines.len() - i,
    {
        let line = lines[i].clone();
        assert(line@ =~= lines[i as int]@);
        r.push(line);
        i += 1;
    }
    assert(lines_view(r) =~= lines_view(*lines));
    r
}

/// A copy of a field.
pub fn clone_field(field: &Field) -> (r: Field)
    ensures
        r@ == field@,
{
    Field { name: field.name.clone(), lines: clone_lines(&field.lines) }
}

/// A field that was set is found, under any spelling of its name.
pub proof fn lemma_set_is_found(
    fields: Seq<FieldView>,
    name: Seq<char>,
    lines: Seq<Seq<u8>>,
    asked: Seq<char>,
)
    requires
        same_name(name, asked),
    ensures
        lookup(with(fields, name, lines), asked) == Some(lines),
{
}

/// Taking a name away leaves none of its fields, and changes nothing for any
/// other name.
pub proof fn lemma_without(fields: Seq<FieldView>, name: Seq<char>, asked: Seq<char>)
    ensures
        same_name(name, asked) ==> lookup(without(fields, name), asked).is_none(),
        !same_name(name, asked) ==> lookup(without(fields, name), asked) == lookup(fields, asked),
    decreases fields.len(),
{
    if fields.len() > 0 {
        lemma_without(fields.drop_last(), name, asked);
        if !same_name(fields.last().name, name) {
            assert(without(fields, name).drop_last() =~= without(fields.drop_last(), name));
        }
    }
}

/// Setting one name changes nothing for any other name.
pub proof fn lemma_set_keeps_others(
    fields: Seq<FieldView>,
    name: Seq<char>,
    lines: Seq<Seq<u8>>,
    asked: Seq<char>,
)
    requires
        !same_name(name, asked),
    ensures
        lookup(with(fields, name, lines), asked) == lookup(fields, asked),
{
    lemma_without(fields, name, asked);
    assert(with(fields, name, lines).drop_last() =~= without(fields, name));
}

} // verus!
