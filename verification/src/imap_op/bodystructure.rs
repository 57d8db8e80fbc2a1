//! BODYSTRUCTURE: the MIME structure of a message and its text.

use vstd::prelude::*;
use vstd::utf8::encode_utf8;
use vstd::string::StrSliceExecFns;
use crate::imap_op::append::{lines_of, text_lines};
use crate::imap_op::fetch::{envelope_chars, envelope_item};
use crate::text::{copy_range, in_quotes, push_in_quotes};
use crate::scan::{
    first_value, header_from, split, split_char, split_once,
    split_once_char, trim, trim_char, trimmed, without_around,
};
use crate::text::{
    chars_to_string, decimal, eq_str, lower_seq, push_chars, push_str, push_u64, str_to_chars,
    string_views, to_lower_vec, to_upper_vec, upper_seq, views,
};

verus! {

/// A disposition: its type and its parameters.
pub type Disposition = Option<(String, Vec<(String, String)>)>;

/// A body part of one text.
#[derive(Debug, Clone, PartialEq, Eq)]
pub struct TextPart {
    pub subtype: String,
    pub parameters: Vec<(String, String)>,
    pub id: Option<String>,
    pub description: Option<String>,
    pub encoding: String,
    pub size: usize,
    pub lines: usize,
    pub md5: Option<String>,
    pub disposition: Disposition,
    pub language: Option<Vec<String>>,
    pub location: Option<String>,
}

/// A body part of another kind than text, several parts or a message: an
/// image, an attachment.
#[derive(Debug, Clone, PartialEq, Eq)]
pub struct BasicPart {
    /// The media type before the slash, in upper case.
    pub media_type: String,
    pub subtype: String,
    pub parameters: Vec<(String, String)>,
    pub id: Option<String>,
    pub description: Option<String>,
    pub encoding: String,
    pub size: usize,
    pub md5: Option<String>,
    pub disposition: Disposition,
    pub language: Option<Vec<String>>,
    pub location: Option<String>,
}

/// A body part of several parts.
#[derive(Debug, PartialEq, Eq)]
pub struct MultipartPart {
    pub subtype: String,
    pub parts: Vec<BodyStructure>,
    pub parameters: Vec<(String, String)>,
    pub disposition: Disposition,
    pub language: Option<Vec<String>>,
    pub location: Option<String>,
}

/// A body part that holds a message.
#[derive(Debug, PartialEq, Eq)]
pub struct MessagePart {
    pub subtype: String,
    pub parameters: Vec<(String, String)>,
    pub id: Option<String>,
    pub description: Option<String>,
    pub encoding: String,
    pub size: usize,
    pub envelope: String,
    pub body: Box<BodyStructure>,
    pub lines: usize,
    pub md5: Option<String>,
    pub disposition: Disposition,
    pub language: Option<Vec<String>>,
    pub location: Option<String>,
}

/// The MIME structure of a message.
#[derive(Debug, PartialEq, Eq)]
pub enum BodyStructure {
    Text(TextPart),
    Basic(BasicPart),
    Multipart(MultipartPart),
    Message(MessagePart),
}

/// Name and value pairs as plain values.
pub type Pairs = Seq<(Seq<char>, Seq<char>)>;

pub open spec fn pair_views(v: Seq<(String, String)>) -> Pairs {
    Seq::new(v.len(), |i: int| (v[i].0@, v[i].1@))
}

pub open spec fn text_view(t: Option<String>) -> Option<Seq<char>> {
    match t {
        Some(s) => Some(s@),
        None => None,
    }
}

pub open spec fn disposition_view(d: Disposition) -> Option<(Seq<char>, Pairs)> {
    match d {
        Some((kind, params)) => Some((kind@, pair_views(params@))),
        None => None,
    }
}

pub open spec fn language_view(l: Option<Vec<String>>) -> Option<Seq<Seq<char>>> {
    match l {
        Some(v) => Some(string_views(v@)),
        None => None,
    }
}

/// What follows the basic fields of a part when extension data is shown.
pub ghost struct ExtensionView {
    pub disposition: Option<(Seq<char>, Pairs)>,
    pub language: Option<Seq<Seq<char>>>,
    pub location: Option<Seq<char>>,
}

/// The fields that a text part and a message part share.
pub ghost struct LeafView {
    pub parameters: Pairs,
    pub id: Option<Seq<char>>,
    pub description: Option<Seq<char>>,
    pub encoding: Seq<char>,
    pub size: usize,
    pub lines: usize,
    pub md5: Option<Seq<char>>,
    pub extension: ExtensionView,
}

/// A structure as plain values.
pub ghost enum BodyView {
    Text { subtype: Seq<char>, leaf: LeafView },
    Basic { media_type: Seq<char>, subtype: Seq<char>, leaf: LeafView },
    Multipart { subtype: Seq<char>, parts: Seq<BodyView>, parameters: Pairs, extension: ExtensionView },
    Message { subtype: Seq<char>, leaf: LeafView, envelope: Seq<char>, body: Box<BodyView> },
}

/// The leaf fields of a text part.
pub open spec fn text_leaf(t: TextPart) -> LeafView {
    LeafView {
        parameters: pair_views(t.parameters@),
        id: text_view(t.id),
        description: text_view(t.description),
        encoding: t.encoding@,
        size: t.size,
        lines: t.lines,
        md5: text_view(t.md5),
        extension: ExtensionView {
            disposition: disposition_view(t.disposition),
            language: language_view(t.language),
            location: text_view(t.location),
        },
    }
}

/// The leaf fields of a part of another kind, which counts no lines.
pub open spec fn basic_leaf(b: BasicPart) -> LeafView {
    LeafView {
        parameters: pair_views(b.parameters@),
        id: text_view(b.id),
        description: text_view(b.description),
        encoding: b.encoding@,
        size: b.size,
        lines: 0,
        md5: text_view(b.md5),
        extension: ExtensionView {
            disposition: disposition_view(b.disposition),
            language: language_view(b.language),
            location: text_view(b.location),
        },
    }
}

/// The leaf fields of a message part.
pub open spec fn message_leaf(m: MessagePart) -> LeafView {
    LeafView {
        parameters: pair_views(m.parameters@),
        id: text_view(m.id),
        description: text_view(m.description),
        encoding: m.encoding@,
        size: m.size,
        lines: m.lines,
        md5: text_view(m.md5),
        extension: ExtensionView {
            disposition: disposition_view(m.disposition),
            language: language_view(m.language),
            location: text_view(m.location),
        },
    }
}

/// The extension data of a multipart.
pub open spec fn multipart_extension(m: MultipartPart) -> ExtensionView {
    ExtensionView {
        disposition: disposition_view(m.disposition),
        language: language_view(m.language),
        location: text_view(m.location),
    }
}

/// The plain values of a structure.
pub open spec fn body_view(b: BodyStructure) -> BodyView
    decreases b, 0int,
{
    match b {
        BodyStructure::Text(t) => BodyView::Text { subtype: t.subtype@, leaf: text_leaf(t) },
        BodyStructure::Basic(b) => BodyView::Basic {
            media_type: b.media_type@,
            subtype: b.subtype@,
            leaf: basic_leaf(b),
        },
        BodyStructure::Multipart(m) => BodyView::Multipart {
            subtype: m.subtype@,
            parts: body_views(m.parts@, m.parts@.len() as int),
            parameters: pair_views(m.parameters@),
            extension: multipart_extension(m),
        },
        BodyStructure::Message(m) => BodyView::Message {
            subtype: m.subtype@,
            leaf: message_leaf(m),
            envelope: m.envelope@,
            body: Box::new(body_view(*m.body)),
        },
    }
}

/// The plain values of the first `n` structures of a list.
pub open spec fn body_views(parts: Seq<BodyStructure>, n: int) -> Seq<BodyView>
    decreases parts, n,
{
    if n <= 0 || n > parts.len() {
        seq![]
    } else {
        body_views(parts, n - 1).push(body_view(parts[n - 1]))
    }
}

impl View for BodyStructure {
    type V = BodyView;

    open spec fn view(&self) -> BodyView {
        body_view(*self)
    }
}

/// A text in double quotes, with a backslash before each `"` and each
/// backslash in it.
pub open spec fn quoted_text(s: Seq<char>) -> Seq<char> {
    in_quotes(s)
}

/// A text in double quotes, or `NIL` where there is none.
pub open spec fn option_text(opt: Option<Seq<char>>) -> Seq<char> {
    match opt {
        Some(s) => quoted_text(s),
        None => "NIL"@,
    }
}

/// The first `n` pairs, each as two quoted texts, with spaces between.
pub open spec fn pairs_text(params: Pairs, n: int) -> Seq<char>
    decreases n,
{
    if n <= 0 || n > params.len() {
        seq![]
    } else if n == 1 {
        quoted_text(params[0].0) + " "@ + quoted_text(params[0].1)
    } else {
        pairs_text(params, n - 1) + " "@ + quoted_text(params[n - 1].0) + " "@ + quoted_text(
            params[n - 1].1,
        )
    }
}

/// A parameter list: the pairs in parentheses, or `NIL` where there is
/// none.
pub open spec fn params_text(params: Pairs) -> Seq<char> {
    if params.len() == 0 {
        "NIL"@
    } else {
        "("@ + pairs_text(params, params.len() as int) + ")"@
    }
}

/// A disposition: its type and its parameter list in parentheses, or
/// `NIL`.
pub open spec fn disposition_text(d: Option<(Seq<char>, Pairs)>) -> Seq<char> {
    match d {
        Some((kind, params)) => "("@ + kind + " "@ + params_text(params) + ")"@,
        None => "NIL"@,
    }
}

/// The first `n` texts, each quoted, with spaces between.
pub open spec fn quoted_list(items: Seq<Seq<char>>, n: int) -> Seq<char>
    decreases n,
{
    if n <= 0 || n > items.len() {
        seq![]
    } else if n == 1 {
        quoted_text(items[0])
    } else {
        quoted_list(items, n - 1) + " "@ + quoted_text(items[n - 1])
    }
}

/// A language list: one language quoted, several quoted in parentheses,
/// or `NIL`.
pub open spec fn language_text(l: Option<Seq<Seq<char>>>) -> Seq<char> {
    match l {
        Some(langs) => if langs.len() == 1 {
            quoted_text(langs[0])
        } else {
            "("@ + quoted_list(langs, langs.len() as int) + ")"@
        },
        None => "NIL"@,
    }
}

/// The extension data of a part, each field preceded by a space.
pub open spec fn extension_text(e: ExtensionView) -> Seq<char> {
    " "@ + disposition_text(e.disposition) + " "@ + language_text(e.language) + " "@ + option_text(
        e.location,
    )
}

/// The fields of a text or message part from the parameters to the size.
pub open spec fn leaf_head(l: LeafView) -> Seq<char> {
    params_text(l.parameters) + " "@ + option_text(l.id) + " "@ + option_text(l.description)
        + " "@ + quoted_text(l.encoding) + " "@ + decimal(l.size as int)
}

/// What closes a text or message part: with extension data, the MD5 and
/// the extension fields, then the parenthesis.
pub open spec fn leaf_tail(l: LeafView, include_extension: bool) -> Seq<char> {
    if include_extension {
        " "@ + option_text(l.md5) + extension_text(l.extension) + ")"@
    } else {
        ")"@
    }
}

/// The text of a structure, with or without extension data. The
/// parameters of a multipart belong to its extension data; only a text
/// and a message show a number of lines.
pub open spec fn structure_text(b: BodyView, include_extension: bool) -> Seq<char>
    decreases b, 0int,
{
    match b {
        BodyView::Text { subtype, leaf } => "(\"TEXT\" "@ + quoted_text(subtype) + " "@ + leaf_head(
            leaf,
        ) + " "@ + decimal(leaf.lines as int) + leaf_tail(leaf, include_extension),
        BodyView::Basic { media_type, subtype, leaf } => "("@ + quoted_text(media_type) + " "@
            + quoted_text(subtype) + " "@ + leaf_head(leaf) + leaf_tail(leaf, include_extension),
        BodyView::Multipart { subtype, parts, parameters, extension } => "("@ + structures_text(
            parts,
            parts.len() as int,
            include_extension,
        ) + " "@ + quoted_text(subtype) + if include_extension {
            " "@ + params_text(parameters) + extension_text(extension) + ")"@
        } else {
            ")"@
        },
        BodyView::Message { leaf, envelope, body, .. } => "(\"MESSAGE\" \"RFC822\" "@ + leaf_head(leaf)
            + " "@ + envelope + " "@ + structure_text(*body, include_extension) + " "@ + decimal(
            leaf.lines as int,
        ) + leaf_tail(leaf, include_extension),
    }
}

/// The texts of the first `n` structures, with spaces between.
pub open spec fn structures_text(parts: Seq<BodyView>, n: int, include_extension: bool) -> Seq<char>
    decreases parts, n,
{
    if n <= 0 || n > parts.len() {
        seq![]
    } else if n == 1 {
        structure_text(parts[0], include_extension)
    } else {
        structures_text(parts, n - 1, include_extension) + " "@ + structure_text(
            parts[n - 1],
            include_extension,
        )
    }
}


fn push_quoted(out: &mut Vec<char>, s: &str)
    ensures
        final(out)@ == old(out)@ + quoted_text(s@),
{
    let chars = str_to_chars(s);
    push_in_quotes(out, chars.as_slice());
}

fn push_option(out: &mut Vec<char>, opt: &Option<String>)
    ensures
        final(out)@ == old(out)@ + option_text(text_view(*opt)),
{
    match opt {
        Some(s) => {
            push_quoted(out, s.as_str());
        },
        None => {
            push_str(out, "NIL");
        },
    }
}

fn push_params(out: &mut Vec<char>, params: &Vec<(String, String)>)
    ensures
        final(out)@ == old(out)@ + params_text(pair_views(params@)),
{
    if params.len() == 0 {
        push_str(out, "NIL");
        return ;
    }
    push_str(out, "(");
    let ghost start = out@;
    let mut i: usize = 0;
    while i < params.len()
        invariant
            i <= params.len(),
            out@ == start + pairs_text(pair_views(params@), i as int),
        decreases params.len() - i,
    {
        let ghost before = out@;
        if i > 0 {
            push_str(out, " ");
        }
        push_quoted(out, params[i].0.as_str());
        push_str(out, " ");
        push_quoted(out, params[i].1.as_str());
        assert(out@ =~= start + pairs_text(pair_views(params@), i + 1));
        i += 1;
    }
    push_str(out, ")");
    assert(out@ =~= old(out)@ + params_text(pair_views(params@)));
}

fn push_disposition(out: &mut Vec<char>, d: &Disposition)
    ensures
        final(out)@ == old(out)@ + disposition_text(disposition_view(*d)),
{
    match d {
        Some((kind, params)) => {
            push_str(out, "(");
            push_str(out, kind.as_str());
            push_str(out, " ");
            push_params(out, params);
            push_str(out, ")");
            assert(out@ =~= old(out)@ + disposition_text(disposition_view(*d)));
        },
        None => {
            push_str(out, "NIL");
        },
    }
}

fn push_language(out: &mut Vec<char>, l: &Option<Vec<String>>)
    ensures
        final(out)@ == old(out)@ + language_text(language_view(*l)),
{
    match l {
        Some(langs) => {
            if langs.len() == 1 {
                push_quoted(out, langs[0].as_str());
            } else {
                push_str(out, "(");
                let ghost start = out@;
                let mut i: usize = 0;
                while i < langs.len()
                    invariant
                        i <= langs.len(),
                        out@ == start + quoted_list(string_views(langs@), i as int),
                    decreases langs.len() - i,
                {
                    if i > 0 {
                        push_str(out, " ");
                    }
                    push_quoted(out, langs[i].as_str());
                    assert(out@ =~= start + quoted_list(string_views(langs@), i + 1));
                    i += 1;
                }
                push_str(out, ")");
                assert(out@ =~= old(out)@ + language_text(language_view(*l)));
            }
        },
        None => {
            push_str(out, "NIL");
        },
    }
}

/// A parameter list as FETCH shows it.
pub fn params_to_string(params: &Vec<(String, String)>) -> (r: String)
    ensures
        r@ == params_text(pair_views(params@)),
{
    let mut out: Vec<char> = Vec::new();
    push_params(&mut out, params);
    assert(out@ =~= params_text(pair_views(params@)));
    chars_to_string(out.as_slice())
}

/// A text in quotes, or `NIL`.
pub fn option_to_string(opt: &Option<String>) -> (r: String)
    ensures
        r@ == option_text(text_view(*opt)),
{
    let mut out: Vec<char> = Vec::new();
    push_option(&mut out, opt);
    assert(out@ =~= option_text(text_view(*opt)));
    chars_to_string(out.as_slice())
}

/// A disposition as FETCH shows it.
pub fn disposition_to_string(disposition: &Disposition) -> (r: String)
    ensures
        r@ == disposition_text(disposition_view(*disposition)),
{
    let mut out: Vec<char> = Vec::new();
    push_disposition(&mut out, disposition);
    assert(out@ =~= disposition_text(disposition_view(*disposition)));
    chars_to_string(out.as_slice())
}

/// A language list as FETCH shows it.
pub fn language_to_string(language: &Option<Vec<String>>) -> (r: String)
    ensures
        r@ == language_text(language_view(*language)),
{
    let mut out: Vec<char> = Vec::new();
    push_language(&mut out, language);
    assert(out@ =~= language_text(language_view(*language)));
    chars_to_string(out.as_slice())
}

fn push_extension(
    out: &mut Vec<char>,
    disposition: &Disposition,
    language: &Option<Vec<String>>,
    location: &Option<String>,
)
    ensures
        final(out)@ == old(out)@ + extension_text(
            ExtensionView {
                disposition: disposition_view(*disposition),
                language: language_view(*language),
                location: text_view(*location),
            },
        ),
{
    push_str(out, " ");
    push_disposition(out, disposition);
    push_str(out, " ");
    push_language(out, language);
    push_str(out, " ");
    push_option(out, location);
    assert(out@ =~= old(out)@ + extension_text(
        ExtensionView {
            disposition: disposition_view(*disposition),
            language: language_view(*language),
            location: text_view(*location),
        },
    ));
}

fn push_leaf_head(
    out: &mut Vec<char>,
    parameters: &Vec<(String, String)>,
    id: &Option<String>,
    description: &Option<String>,
    encoding: &String,
    size: usize,
    leaf: Ghost<LeafView>,
)
    requires
        leaf@.parameters == pair_views(parameters@),
        leaf@.id == text_view(*id),
        leaf@.description == text_view(*description),
        leaf@.encoding == encoding@,
        leaf@.size == size,
    ensures
        final(out)@ == old(out)@ + leaf_head(leaf@),
{
    push_params(out, parameters);
    push_str(out, " ");
    push_option(out, id);
    push_str(out, " ");
    push_option(out, description);
    push_str(out, " ");
    push_quoted(out, encoding.as_str());
    push_str(out, " ");
    push_u64(out, size as u64);
    assert(out@ =~= old(out)@ + leaf_head(leaf@));
}

fn push_leaf_tail(
    out: &mut Vec<char>,
    md5: &Option<String>,
    disposition: &Disposition,
    language: &Option<Vec<String>>,
    location: &Option<String>,
    include_extension: bool,
    leaf: Ghost<LeafView>,
)
    requires
        leaf@.md5 == text_view(*md5),
        leaf@.extension == (ExtensionView {
            disposition: disposition_view(*disposition),
            language: language_view(*language),
            location: text_view(*location),
        }),
    ensures
        final(out)@ == old(out)@ + leaf_tail(leaf@, include_extension),
{
    if include_extension {
        push_str(out, " ");
        push_option(out, md5);
        push_extension(out, disposition, language, location);
    }
    push_str(out, ")");
    assert(out@ =~= old(out)@ + leaf_tail(leaf@, include_extension));
}

fn push_text_part(out: &mut Vec<char>, t: &TextPart, include_extension: bool)
    ensures
        final(out)@ == old(out)@ + structure_text(
            body_view(BodyStructure::Text(*t)),
            include_extension,
        ),
{
    let ghost leaf = text_leaf(*t);
    push_str(out, "(\"TEXT\" ");
    push_quoted(out, t.subtype.as_str());
    push_str(out, " ");
    push_leaf_head(out, &t.parameters, &t.id, &t.description, &t.encoding, t.size, Ghost(leaf));
    push_str(out, " ");
    push_u64(out, t.lines as u64);
    push_leaf_tail(
        out,
        &t.md5,
        &t.disposition,
        &t.language,
        &t.location,
        include_extension,
        Ghost(leaf),
    );
    assert(out@ =~= old(out)@ + structure_text(
        body_view(BodyStructure::Text(*t)),
        include_extension,
    ));
}

fn push_basic_part(out: &mut Vec<char>, b: &BasicPart, include_extension: bool)
    ensures
        final(out)@ == old(out)@ + structure_text(
            body_view(BodyStructure::Basic(*b)),
            include_extension,
        ),
{
    let ghost leaf = basic_leaf(*b);
    push_str(out, "(");
    push_quoted(out, b.media_type.as_str());
    push_str(out, " ");
    push_quoted(out, b.subtype.as_str());
    push_str(out, " ");
    push_leaf_head(out, &b.parameters, &b.id, &b.description, &b.encoding, b.size, Ghost(leaf));
    push_leaf_tail(
        out,
        &b.md5,
        &b.disposition,
        &b.language,
        &b.location,
        include_extension,
        Ghost(leaf),
    );
    assert(out@ =~= old(out)@ + structure_text(
        body_view(BodyStructure::Basic(*b)),
        include_extension,
    ));
}

fn push_multipart(out: &mut Vec<char>, m: &MultipartPart, include_extension: bool)
    ensures
        final(out)@ == old(out)@ + structure_text(
            body_view(BodyStructure::Multipart(*m)),
            include_extension,
        ),
    decreases m,
{
    push_str(out, "(");
    let ghost start = out@;
    let ghost views = body_views(m.parts@, m.parts@.len() as int);
    let mut i: usize = 0;
    while i < m.parts.len()
        invariant
            i <= m.parts.len(),
            views == body_views(m.parts@, m.parts@.len() as int),
            out@ == start + structures_text(views, i as int, include_extension),
        decreases m.parts.len() - i,
    {
        proof {
            lemma_body_views(m.parts@, m.parts@.len() as int);
            assert(decreases_to!(m => m.parts@[i as int]));
        }
        if i > 0 {
            push_str(out, " ");
        }
        push_structure(out, &m.parts[i], include_extension);
        assert(out@ =~= start + structures_text(views, i + 1, include_extension));
        i += 1;
    }
    proof {
        lemma_body_views(m.parts@, m.parts@.len() as int);
    }
    push_str(out, " ");
    push_quoted(out, m.subtype.as_str());
    if include_extension {
        push_str(out, " ");
        push_params(out, &m.parameters);
        push_extension(out, &m.disposition, &m.language, &m.location);
    }
    push_str(out, ")");
    assert(out@ =~= old(out)@ + structure_text(
        body_view(BodyStructure::Multipart(*m)),
        include_extension,
    ));
}

/// What stands before the body in the text of a message part.
pub open spec fn message_head(leaf: LeafView, envelope: Seq<char>) -> Seq<char> {
    "(\"MESSAGE\" \"RFC822\" "@ + leaf_head(leaf) + " "@ + envelope + " "@
}

/// What stands behind the body in the text of a message part.
pub open spec fn message_tail(leaf: LeafView, include_extension: bool) -> Seq<char> {
    " "@ + decimal(leaf.lines as int) + leaf_tail(leaf, include_extension)
}

/// The text of a message part is its head, the text of its body, and its
/// tail.
pub proof fn lemma_message_text(m: MessagePart, include_extension: bool)
    ensures
        structure_text(body_view(BodyStructure::Message(m)), include_extension) == message_head(
            message_leaf(m),
            m.envelope@,
        ) + structure_text(body_view(*m.body), include_extension) + message_tail(
            message_leaf(m),
            include_extension,
        ),
{
    let leaf = message_leaf(m);
    let inner = structure_text(body_view(*m.body), include_extension);
    assert(structure_text(body_view(BodyStructure::Message(m)), include_extension) =~= message_head(
        leaf,
        m.envelope@,
    ) + inner + message_tail(leaf, include_extension));
}

fn push_message_part(out: &mut Vec<char>, m: &MessagePart, include_extension: bool)
    ensures
        final(out)@ == old(out)@ + structure_text(
            body_view(BodyStructure::Message(*m)),
            include_extension,
        ),
    decreases m,
{
    let ghost leaf = message_leaf(*m);
    let ghost inner = structure_text(body_view(*m.body), include_extension);
    let mut head: Vec<char> = Vec::new();
    push_str(&mut head, "(\"MESSAGE\" \"RFC822\" ");
    push_leaf_head(
        &mut head,
        &m.parameters,
        &m.id,
        &m.description,
        &m.encoding,
        m.size,
        Ghost(leaf),
    );
    push_str(&mut head, " ");
    push_str(&mut head, m.envelope.as_str());
    push_str(&mut head, " ");
    assert(head@ =~= message_head(leaf, m.envelope@));
    let mut tail: Vec<char> = Vec::new();
    push_str(&mut tail, " ");
    push_u64(&mut tail, m.lines as u64);
    push_leaf_tail(
        &mut tail,
        &m.md5,
        &m.disposition,
        &m.language,
        &m.location,
        include_extension,
        Ghost(leaf),
    );
    assert(tail@ =~= message_tail(leaf, include_extension));
    push_chars(out, head.as_slice());
    push_structure(out, &m.body, include_extension);
    push_chars(out, tail.as_slice());
    proof {
        lemma_message_text(*m, include_extension);
        assert(out@ =~= old(out)@ + (head@ + inner + tail@));
    }
}

/// Appends the text of a structure.
pub fn push_structure(out: &mut Vec<char>, structure: &BodyStructure, include_extension: bool)
    ensures
        final(out)@ == old(out)@ + structure_text(structure@, include_extension),
    decreases structure,
{
    match structure {
        BodyStructure::Text(t) => push_text_part(out, t, include_extension),
        BodyStructure::Basic(b) => push_basic_part(out, b, include_extension),
        BodyStructure::Multipart(m) => push_multipart(out, m, include_extension),
        BodyStructure::Message(m) => push_message_part(out, m, include_extension),
    }
}

/// The views of a list of structures are the views of its structures.
pub proof fn lemma_body_views(parts: Seq<BodyStructure>, n: int)
    requires
        0 <= n <= parts.len(),
    ensures
        body_views(parts, n).len() == n,
        forall|i: int| 0 <= i < n ==> body_views(parts, n)[i] == body_view(#[trigger] parts[i]),
    decreases n,
{
    if n > 0 {
        lemma_body_views(parts, n - 1);
    }
}

/// The structure as BODYSTRUCTURE shows it, with extension data, or as
/// BODY shows it, without.
pub fn bodystructure_to_string(structure: &BodyStructure, include_extension: bool) -> (r: String)
    ensures
        r@ == structure_text(structure@, include_extension),
{
    let mut out: Vec<char> = Vec::new();
    push_structure(&mut out, structure, include_extension);
    assert(out@ =~= structure_text(structure@, include_extension));
    chars_to_string(out.as_slice())
}

/// The structure as BODY shows it: without extension data.
pub fn body_to_string(structure: &BodyStructure) -> (r: String)
    ensures
        r@ == structure_text(structure@, false),
{
    bodystructure_to_string(structure, false)
}


/// One part of a parsed message. The parts of a message stand in a list,
/// each part before its subparts; `children` is the number of a part's
/// direct subparts.
#[derive(Debug, Clone, PartialEq, Eq)]
pub struct MailPart {
    /// The media type, in lower case.
    pub mimetype: String,
    pub charset: String,
    /// The parameters of the content type, in the order of their names.
    pub params: Vec<(String, String)>,
    /// The headers: name and value, in the order they stand in the part.
    pub headers: Vec<(String, String)>,
    /// The body with its transfer encoding undone, where it can be.
    pub body: Option<String>,
    /// The part as it stands in the message, headers and body.
    pub raw: Vec<u8>,
    pub children: usize,
}

pub ghost struct PartView {
    pub mimetype: Seq<char>,
    pub charset: Seq<char>,
    pub params: Pairs,
    pub headers: Pairs,
    pub body: Option<Seq<char>>,
    pub raw: Seq<u8>,
    pub children: usize,
}

impl View for MailPart {
    type V = PartView;

    open spec fn view(&self) -> PartView {
        PartView {
            mimetype: self.mimetype@,
            charset: self.charset@,
            params: pair_views(self.params@),
            headers: pair_views(self.headers@),
            body: text_view(self.body),
            raw: self.raw@,
            children: self.children,
        }
    }
}

pub open spec fn part_views(v: Seq<MailPart>) -> Seq<PartView> {
    Seq::new(v.len(), |i: int| v[i]@)
}

/// The parts that `mailparse::parse_mail` finds in a message, each before
/// its subparts; nothing where it reports an error.
pub uninterp spec fn mailparse_parts(raw: Seq<u8>) -> Option<Seq<PartView>>;

/// Calls `mailparse::parse_mail` and walks the result with
/// `ParsedMail::parts`, which gives each part before its subparts. The
/// contract only names the result.
#[verifier::external_body]
fn parse_parts(raw: &[u8]) -> (r: Option<Vec<MailPart>>)
    ensures
        r is Some <==> mailparse_parts(raw@) is Some,
        r is Some ==> part_views(r->0@) == mailparse_parts(raw@)->0,
{
    let mail = mailparse::parse_mail(raw).ok()?;
    let part = |p: &mailparse::ParsedMail| MailPart {
        mimetype: p.ctype.mimetype.clone(),
        charset: p.ctype.charset.clone(),
        params: p.ctype.params.iter().map(|(k, v)| (k.clone(), v.clone())).collect(),
        headers: p.headers.iter().map(|h| (h.get_key(), h.get_value())).collect(),
        body: p.get_body().ok(),
        raw: p.raw_bytes.to_vec(),
        children: p.subparts.len(),
    };
    Some(mail.parts().map(part).collect())
}

/// The value of the first header of the given name, ASCII letter case
/// aside.
pub fn header_value(headers: &Vec<(String, String)>, key: &str) -> (r: Option<String>)
    ensures
        text_view(r) == first_value(pair_views(headers@), key@),
{
    let k = to_lower_vec(str_to_chars(key).as_slice());
    let mut i: usize = 0;
    while i < headers.len()
        invariant
            i <= headers.len(),
            k@ == lower_seq(key@),
            header_from(pair_views(headers@), key@, 0) == header_from(
                pair_views(headers@),
                key@,
                i as int,
            ),
        decreases headers.len() - i,
    {
        let name = to_lower_vec(str_to_chars(headers[i].0.as_str()).as_slice());
        assert(pair_views(headers@)[i as int].0 == headers@[i as int].0@);
        if crate::text::eq_chars(name.as_slice(), k.as_slice()) {
            assert(pair_views(headers@)[i as int].1 == headers@[i as int].1@);
            return Some(headers[i].1.clone());
        }
        i += 1;
    }
    None
}

/// The parameters that the pieces from position 1 up to `n` of a
/// disposition write: each piece with an `=` gives the name before it and
/// the value after it, both without white space around them and the value
/// without double quotes around it.
pub open spec fn disposition_params(pieces: Seq<Seq<char>>, n: int) -> Pairs
    decreases n,
{
    if n <= 1 || n > pieces.len() {
        seq![]
    } else {
        let before = disposition_params(pieces, n - 1);
        match split_once(pieces[n - 1], '=') {
            Some((k, v)) => before.push((trimmed(k), without_around(trimmed(v), '"'))),
            None => before,
        }
    }
}

/// The disposition that a `Content-Disposition` value writes: the type
/// before the first `;` and the parameters after it.
pub open spec fn disposition_of(value: Seq<char>) -> (Seq<char>, Pairs) {
    let pieces = split(value, ';');
    (trimmed(pieces[0]), disposition_params(pieces, pieces.len() as int))
}

/// The languages that a `Content-Language` value writes: its pieces
/// between commas, without white space around them.
pub open spec fn languages_of(value: Seq<char>) -> Seq<Seq<char>> {
    let pieces = split(value, ',');
    Seq::new(pieces.len(), |i: int| trimmed(pieces[i]))
}

pub proof fn lemma_split_nonempty(s: Seq<char>, c: char, i: int)
    ensures
        crate::scan::split_from(s, c, i).len() > 0,
    decreases s.len() - i,
{
    let k = crate::scan::find_from(s, c, i);
    if i <= k < s.len() {
        lemma_split_nonempty(s, c, k + 1);
    }
}

/// Reads a `Content-Disposition` value.
pub fn parse_disposition_value(value: &str) -> (r: (String, Vec<(String, String)>))
    ensures
        (r.0@, pair_views(r.1@)) == disposition_of(value@),
{
    let chars = str_to_chars(value);
    let pieces = split_char(chars.as_slice(), ';');
    proof {
        lemma_split_nonempty(value@, ';', 0);
    }
    let kind = chars_to_string(trim(pieces[0].as_slice()).as_slice());
    let mut params: Vec<(String, String)> = Vec::new();
    let mut i: usize = 1;
    while i < pieces.len()
        invariant
            1 <= i <= pieces.len(),
            pair_views(params@) == disposition_params(views(pieces@), i as int),
        decreases pieces.len() - i,
    {
        match split_once_char(pieces[i].as_slice(), '=') {
            Some((k, v)) => {
                let name = chars_to_string(trim(k.as_slice()).as_slice());
                let val = chars_to_string(
                    trim_char(trim(v.as_slice()).as_slice(), '"').as_slice(),
                );
                let ghost before = pair_views(params@);
                let ghost pair = (name@, val@);
                params.push((name, val));
                assert(pair_views(params@) =~= before.push(pair));
            },
            None => {},
        }
        i += 1;
    }
    (kind, params)
}

/// Reads a `Content-Language` value.
pub fn parse_language_value(value: &str) -> (r: Vec<String>)
    ensures
        string_views(r@) == languages_of(value@),
{
    let chars = str_to_chars(value);
    let pieces = split_char(chars.as_slice(), ',');
    let mut out: Vec<String> = Vec::new();
    let mut i: usize = 0;
    while i < pieces.len()
        invariant
            i <= pieces.len(),
            out@.len() == i,
            forall|j: int| 0 <= j < i ==> out@[j]@ == trimmed(views(pieces@)[j]),
        decreases pieces.len() - i,
    {
        out.push(chars_to_string(trim(pieces[i].as_slice()).as_slice()));
        i += 1;
    }
    assert(string_views(out@) =~= languages_of(value@));
    out
}

/// The disposition of a part: that of its `Content-Disposition` header.
pub open spec fn part_disposition(headers: Pairs) -> Option<(Seq<char>, Pairs)> {
    match first_value(headers, "Content-Disposition"@) {
        Some(v) => Some(disposition_of(v)),
        None => None,
    }
}

/// The languages of a part: those of its `Content-Language` header.
pub open spec fn part_language(headers: Pairs) -> Option<Seq<Seq<char>>> {
    match first_value(headers, "Content-Language"@) {
        Some(v) => Some(languages_of(v)),
        None => None,
    }
}

pub fn parse_content_disposition(part: &MailPart) -> (r: Disposition)
    ensures
        disposition_view(r) == part_disposition(part@.headers),
{
    match header_value(&part.headers, "Content-Disposition") {
        Some(v) => Some(parse_disposition_value(v.as_str())),
        None => None,
    }
}

pub fn parse_content_language(part: &MailPart) -> (r: Option<Vec<String>>)
    ensures
        language_view(r) == part_language(part@.headers),
{
    match header_value(&part.headers, "Content-Language") {
        Some(v) => Some(parse_language_value(v.as_str())),
        None => None,
    }
}

/// The size of a body in octets; 0 where there is none.
pub open spec fn body_size(body: Option<Seq<char>>) -> usize {
    match body {
        Some(b) => encode_utf8(b).len() as usize,
        None => 0,
    }
}

/// The number of lines of a body, the last with or without a line feed
/// behind it; 0 where there is no body.
pub open spec fn body_lines(body: Option<Seq<char>>) -> usize {
    match body {
        Some(b) => lines_of(b).len() as usize,
        None => 0,
    }
}

fn size_of_body(body: &Option<String>) -> (r: usize)
    ensures
        r == body_size(text_view(*body)),
{
    match body {
        Some(b) => b.as_str().len(),
        None => 0,
    }
}

fn lines_of_body(body: &Option<String>) -> (r: usize)
    ensures
        r == body_lines(text_view(*body)),
{
    match body {
        Some(b) => {
            let chars = str_to_chars(b.as_str());
            text_lines(chars.as_slice()).len()
        },
        None => 0,
    }
}

/// The extension data of a part.
pub open spec fn part_extension(part: PartView) -> ExtensionView {
    ExtensionView {
        disposition: part_disposition(part.headers),
        language: part_language(part.headers),
        location: first_value(part.headers, "Content-Location"@),
    }
}

/// The leaf fields of a text or message part.
pub open spec fn part_leaf(part: PartView) -> LeafView {
    LeafView {
        parameters: part.params,
        id: first_value(part.headers, "Content-ID"@),
        description: first_value(part.headers, "Content-Description"@),
        encoding: part.charset,
        size: body_size(part.body),
        lines: body_lines(part.body),
        md5: first_value(part.headers, "Content-MD5"@),
        extension: part_extension(part),
    }
}

/// The transfer encoding that a part names, and `7BIT` where it names
/// none.
pub open spec fn transfer_encoding(headers: Pairs) -> Seq<char> {
    match first_value(headers, "Content-Transfer-Encoding"@) {
        Some(e) => e,
        None => "7BIT"@,
    }
}

/// The leaf fields of a part of another kind than text, several parts or
/// a message.
pub open spec fn part_basic_leaf(part: PartView) -> LeafView {
    LeafView {
        parameters: part.params,
        id: first_value(part.headers, "Content-ID"@),
        description: first_value(part.headers, "Content-Description"@),
        encoding: transfer_encoding(part.headers),
        size: body_size(part.body),
        lines: 0,
        md5: first_value(part.headers, "Content-MD5"@),
        extension: part_extension(part),
    }
}

/// The leaf fields of a part that holds a message.
pub open spec fn part_message_leaf(part: PartView) -> LeafView {
    LeafView {
        parameters: part.params,
        id: first_value(part.headers, "Content-ID"@),
        description: first_value(part.headers, "Content-Description"@),
        encoding: transfer_encoding(part.headers),
        size: body_size(part.body),
        lines: body_lines(part.body),
        md5: first_value(part.headers, "Content-MD5"@),
        extension: part_extension(part),
    }
}

/// The parts of a text that is a message; none where it cannot be
/// parsed.
pub open spec fn parts_of(data: Seq<char>) -> Seq<PartView> {
    match mailparse_parts(encode_utf8(data)) {
        Some(parts) => parts,
        None => seq![],
    }
}

/// The envelope of a message with the given headers as a structure
/// holds it: the parenthesised list without the name of the item.
pub open spec fn envelope_list(headers: Pairs) -> Seq<char> {
    envelope_item(headers).skip(9)
}

/// How deep messages in messages are taken apart: one that lies deeper is
/// shown as plain text.
pub const MESSAGE_DEPTH: usize = 8;

/// Whether a part holds nothing at all: such a part of a multipart is
/// passed over.
pub open spec fn is_empty_part(part: PartView) -> bool {
    part.raw.len() == 0 && part.children == 0
}

/// Whether the pieces of a media type name a message in a message.
pub open spec fn is_message(kind: Seq<Seq<char>>) -> bool {
    kind.len() == 2 && kind[0] == "message"@ && kind[1] == "rfc822"@
}

/// The structure of a part whose media type is not of two pieces, of a
/// multipart without a part, or of a message in a message that cannot be
/// parsed or lies too deep: plain 7-bit text of the part's size.
pub open spec fn fallback_structure(part: PartView) -> BodyView {
    BodyView::Text {
        subtype: "plain"@,
        leaf: LeafView {
            parameters: seq![],
            id: None,
            description: None,
            encoding: "7BIT"@,
            size: body_size(part.body),
            lines: body_lines(part.body),
            md5: None,
            extension: ExtensionView { disposition: None, language: None, location: None },
        },
    }
}

/// The structure of the part at position `i` of a list of parts, and the
/// position after the part and all its subparts. A message in a message
/// is parsed in its turn, `depth` levels deep.
pub open spec fn structure_at(parts: Seq<PartView>, i: int, depth: nat) -> (BodyView, int)
    decreases depth, parts.len() - i, 0int,
{
    if i < 0 || i >= parts.len() {
        (fallback_structure(PartView {
            mimetype: seq![],
            charset: seq![],
            params: seq![],
            headers: seq![],
            body: None,
            raw: seq![],
            children: 0,
        }), i)
    } else {
        let part = parts[i];
        let kind = split(part.mimetype, '/');
        let (below, end) = children_at(parts, i + 1, part.children as int, depth);
        if kind.len() == 2 && kind[0] == "text"@ {
            (BodyView::Text { subtype: kind[1], leaf: part_leaf(part) }, end)
        } else if kind.len() == 2 && kind[0] == "multipart"@ && below.len() > 0 {
            (
                BodyView::Multipart {
                    subtype: kind[1],
                    parts: below,
                    parameters: part.params,
                    extension: part_extension(part),
                },
                end,
            )
        } else if is_message(kind) && depth > 0 && part.body is Some && parts_of(
            part.body->0,
        ).len() > 0 {
            let inner = parts_of(part.body->0);
            (
                BodyView::Message {
                    subtype: "rfc822"@,
                    leaf: part_message_leaf(part),
                    envelope: envelope_list(inner[0].headers),
                    body: Box::new(structure_at(inner, 0, (depth - 1) as nat).0),
                },
                end,
            )
        } else if kind.len() == 2 && !is_message(kind) && kind[0] != "multipart"@ {
            (
                BodyView::Basic {
                    media_type: upper_seq(kind[0]),
                    subtype: kind[1],
                    leaf: part_basic_leaf(part),
                },
                end,
            )
        } else {
            (fallback_structure(part), end)
        }
    }
}

/// The structures of `count` parts that follow one another from position
/// `i` on, as far as the list goes, and the position after them. A part
/// that holds nothing gives no structure.
pub open spec fn children_at(parts: Seq<PartView>, i: int, count: int, depth: nat) -> (
    Seq<BodyView>,
    int,
)
    decreases depth, parts.len() - i, count,
{
    if count <= 0 || i < 0 || i >= parts.len() {
        (seq![], i)
    } else if is_empty_part(parts[i]) {
        children_at(parts, i + 1, count - 1, depth)
    } else {
        let (first, j) = structure_at(parts, i, depth);
        if i < j <= parts.len() {
            let (rest, k) = children_at(parts, j, count - 1, depth);
            (seq![first] + rest, k)
        } else {
            (seq![first], j)
        }
    }
}

/// The structure of a message whose parts are given; that of an empty
/// text where the list is empty.
pub open spec fn message_structure(parts: Seq<PartView>) -> BodyView {
    structure_at(parts, 0, MESSAGE_DEPTH as nat).0
}


pub proof fn lemma_structure_at(parts: Seq<PartView>, i: int, depth: nat)
    requires
        0 <= i < parts.len(),
    ensures
        i < structure_at(parts, i, depth).1 <= parts.len(),
    decreases parts.len() - i, 0int,
{
    lemma_children_at(parts, i + 1, parts[i].children as int, depth);
}

pub proof fn lemma_children_at(parts: Seq<PartView>, i: int, count: int, depth: nat)
    requires
        0 <= i <= parts.len(),
    ensures
        i <= children_at(parts, i, count, depth).1 <= parts.len(),
    decreases parts.len() - i, count,
{
    if !(count <= 0 || i >= parts.len()) {
        if is_empty_part(parts[i]) {
            lemma_children_at(parts, i + 1, count - 1, depth);
        } else {
            lemma_structure_at(parts, i, depth);
            let j = structure_at(parts, i, depth).1;
            lemma_children_at(parts, j, count - 1, depth);
        }
    }
}

fn fallback_part(part: &MailPart) -> (r: BodyStructure)
    ensures
        r@ == fallback_structure(part@),
{
    let r = BodyStructure::Text(
        TextPart {
            subtype: chars_to_string(str_to_chars("plain").as_slice()),
            parameters: Vec::new(),
            id: None,
            description: None,
            encoding: chars_to_string(str_to_chars("7BIT").as_slice()),
            size: size_of_body(&part.body),
            lines: lines_of_body(&part.body),
            md5: None,
            disposition: None,
            language: None,
            location: None,
        },
    );
    assert(pair_views(Seq::<(String, String)>::empty()) =~= Seq::empty());
    r
}

/// A copy of name and value pairs.
fn copy_pairs(v: &Vec<(String, String)>) -> (r: Vec<(String, String)>)
    ensures
        pair_views(r@) == pair_views(v@),
{
    let mut out: Vec<(String, String)> = Vec::new();
    let mut i: usize = 0;
    while i < v.len()
        invariant
            i <= v.len(),
            out@.len() == i,
            forall|j: int| 0 <= j < i ==> out@[j].0@ == v@[j].0@ && out@[j].1@ == v@[j].1@,
        decreases v.len() - i,
    {
        out.push((v[i].0.clone(), v[i].1.clone()));
        i += 1;
    }
    assert(pair_views(out@) =~= pair_views(v@));
    out
}

/// The structure of the part at position `i` and the position after the
/// part and all its subparts.
pub fn build_at(parts: &Vec<MailPart>, i: usize, depth: usize) -> (r: (BodyStructure, usize))
    requires
        i < parts.len(),
    ensures
        r.0@ == structure_at(part_views(parts@), i as int, depth as nat).0,
        r.1 == structure_at(part_views(parts@), i as int, depth as nat).1,
        i < r.1 <= parts.len(),
    decreases depth, parts.len() - i, 0int,
{
    proof {
        lemma_structure_at(part_views(parts@), i as int, depth as nat);
    }
    let part = &parts[i];
    assert(part@ == part_views(parts@)[i as int]);
    let mime = str_to_chars(part.mimetype.as_str());
    let kind = split_char(mime.as_slice(), '/');
    let (below, end) = build_children(parts, i + 1, part.children, depth);
    proof {
        lemma_body_views(below@, below@.len() as int);
    }
    if kind.len() == 2 && eq_str(kind[0].as_slice(), "text") {
        let text = BodyStructure::Text(
            TextPart {
                subtype: chars_to_string(kind[1].as_slice()),
                parameters: copy_pairs(&part.params),
                id: header_value(&part.headers, "Content-ID"),
                description: header_value(&part.headers, "Content-Description"),
                encoding: part.charset.clone(),
                size: size_of_body(&part.body),
                lines: lines_of_body(&part.body),
                md5: header_value(&part.headers, "Content-MD5"),
                disposition: parse_content_disposition(part),
                language: parse_content_language(part),
                location: header_value(&part.headers, "Content-Location"),
            },
        );
        (text, end)
    } else if kind.len() == 2 && eq_str(kind[0].as_slice(), "multipart") && below.len() > 0 {
        let multi = BodyStructure::Multipart(
            MultipartPart {
                subtype: chars_to_string(kind[1].as_slice()),
                parts: below,
                parameters: copy_pairs(&part.params),
                disposition: parse_content_disposition(part),
                language: parse_content_language(part),
                location: header_value(&part.headers, "Content-Location"),
            },
        );
        (multi, end)
    } else if kind.len() == 2 && eq_str(kind[0].as_slice(), "message") && eq_str(
        kind[1].as_slice(),
        "rfc822",
    ) {
        match inner_message(part, depth) {
            Some(message) => (message, end),
            None => (fallback_part(part), end),
        }
    } else if kind.len() == 2 && !eq_str(kind[0].as_slice(), "multipart") {
        let encoding = encoding_of(&part.headers);
        let basic = BodyStructure::Basic(
            BasicPart {
                media_type: chars_to_string(to_upper_vec(kind[0].as_slice()).as_slice()),
                subtype: chars_to_string(kind[1].as_slice()),
                parameters: copy_pairs(&part.params),
                id: header_value(&part.headers, "Content-ID"),
                description: header_value(&part.headers, "Content-Description"),
                encoding,
                size: size_of_body(&part.body),
                md5: header_value(&part.headers, "Content-MD5"),
                disposition: parse_content_disposition(part),
                language: parse_content_language(part),
                location: header_value(&part.headers, "Content-Location"),
            },
        );
        (basic, end)
    } else {
        (fallback_part(part), end)
    }
}

/// The transfer encoding that the headers name, and `7BIT` where they
/// name none.
fn encoding_of(headers: &Vec<(String, String)>) -> (r: String)
    ensures
        r@ == transfer_encoding(pair_views(headers@)),
{
    match header_value(headers, "Content-Transfer-Encoding") {
        Some(e) => e,
        None => chars_to_string(str_to_chars("7BIT").as_slice()),
    }
}

/// The structure of a part that holds a message: the message is parsed
/// and its structure built below the part. Nothing where the part has no
/// body, the body cannot be parsed, or the message lies too deep.
fn inner_message(part: &MailPart, depth: usize) -> (r: Option<BodyStructure>)
    ensures
        r is Some <==> (depth > 0 && part@.body is Some && parts_of(part@.body->0).len() > 0),
        r is Some ==> r->0@ == (BodyView::Message {
            subtype: "rfc822"@,
            leaf: part_message_leaf(part@),
            envelope: envelope_list(parts_of(part@.body->0)[0].headers),
            body: Box::new(structure_at(parts_of(part@.body->0), 0, (depth - 1) as nat).0),
        }),
    decreases depth, 0int, 0int,
{
    if depth == 0 {
        return None;
    }
    let text = match &part.body {
        Some(b) => b,
        None => {
            return None;
        },
    };
    let inner = message_parts(text.as_str().as_bytes_vec().as_slice());
    if inner.len() == 0 {
        return None;
    }
    assert(part_views(inner@) == parts_of(part@.body->0));
    assert(part_views(inner@)[0] == inner@[0]@);
    let envelope = envelope_chars(&inner[0].headers);
    proof {
        reveal_strlit("ENVELOPE (");
        assert(envelope@.len() >= 10);
    }
    let list = copy_range(envelope.as_slice(), 9, envelope.len());
    assert(list@ =~= envelope_list(pair_views(inner@[0].headers@)));
    let (body, _) = build_at(&inner, 0, depth - 1);
    Some(
        BodyStructure::Message(
            MessagePart {
                subtype: chars_to_string(str_to_chars("rfc822").as_slice()),
                parameters: copy_pairs(&part.params),
                id: header_value(&part.headers, "Content-ID"),
                description: header_value(&part.headers, "Content-Description"),
                encoding: encoding_of(&part.headers),
                size: size_of_body(&part.body),
                envelope: chars_to_string(list.as_slice()),
                body: Box::new(body),
                lines: lines_of_body(&part.body),
                md5: header_value(&part.headers, "Content-MD5"),
                disposition: parse_content_disposition(part),
                language: parse_content_language(part),
                location: header_value(&part.headers, "Content-Location"),
            },
        ),
    )
}

/// The structures of `count` parts that follow one another from position
/// `i` on, as far as the list goes, and the position after them.
pub fn build_children(parts: &Vec<MailPart>, i: usize, count: usize, depth: usize) -> (r: (
    Vec<BodyStructure>,
    usize,
))
    requires
        i <= parts.len(),
    ensures
        body_views(r.0@, r.0@.len() as int) == children_at(
            part_views(parts@),
            i as int,
            count as int,
            depth as nat,
        ).0,
        r.1 == children_at(part_views(parts@), i as int, count as int, depth as nat).1,
        i <= r.1 <= parts.len(),
    decreases depth, parts.len() - i, count,
{
    proof {
        lemma_children_at(part_views(parts@), i as int, count as int, depth as nat);
    }
    if count == 0 || i >= parts.len() {
        return (Vec::new(), i);
    }
    assert(parts@[i as int]@ == part_views(parts@)[i as int]);
    if parts[i].raw.len() == 0 && parts[i].children == 0 {
        return build_children(parts, i + 1, count - 1, depth);
    }
    let (first, j) = build_at(parts, i, depth);
    let (mut rest, k) = build_children(parts, j, count - 1, depth);
    proof {
        lemma_body_views(rest@, rest@.len() as int);
    }
    let ghost old_rest = rest@;
    let ghost fv = first@;
    rest.insert(0, first);
    proof {
        lemma_body_views(rest@, rest@.len() as int);
        let left = body_views(rest@, rest@.len() as int);
        let right = seq![fv] + body_views(old_rest, old_rest.len() as int);
        assert(left.len() == right.len());
        assert forall|x: int| 0 <= x < left.len() implies left[x] == right[x] by {
            assert(left[x] == body_view(rest@[x]));
            if x > 0 {
                assert(rest@[x] == old_rest[x - 1]);
                assert(right[x] == body_view(old_rest[x - 1]));
            }
        }
        assert(left =~= right);
    }
    (rest, k)
}

/// The structure of a message whose parts are given, each part before
/// its subparts.
pub fn build_bodystructure(parts: &Vec<MailPart>) -> (r: Option<BodyStructure>)
    ensures
        r is Some <==> parts@.len() > 0,
        r is Some ==> r->0@ == message_structure(part_views(parts@)),
{
    if parts.len() == 0 {
        None
    } else {
        Some(build_at(parts, 0, MESSAGE_DEPTH).0)
    }
}

/// The structure of a message: that of the parts that `mailparse` finds
/// in it.
pub open spec fn structure_of(raw: Seq<u8>) -> Option<BodyView> {
    match mailparse_parts(raw) {
        Some(parts) => if parts.len() > 0 {
            Some(message_structure(parts))
        } else {
            None
        },
        None => None,
    }
}

/// Parses a message and gives its structure; nothing where the message
/// cannot be parsed.
pub fn parse_bodystructure(raw_email: &[u8]) -> (r: Option<BodyStructure>)
    ensures
        r is Some <==> structure_of(raw_email@) is Some,
        r is Some ==> r->0@ == structure_of(raw_email@)->0,
{
    match parse_parts(raw_email) {
        Some(parts) => build_bodystructure(&parts),
        None => None,
    }
}

/// The parts of a message; an empty list where it cannot be parsed.
pub fn message_parts(raw: &[u8]) -> (r: Vec<MailPart>)
    ensures
        part_views(r@) == match mailparse_parts(raw@) {
            Some(parts) => parts,
            None => seq![],
        },
{
    match parse_parts(raw) {
        Some(parts) => parts,
        None => {
            let v: Vec<MailPart> = Vec::new();
            assert(part_views(v@) =~= seq![]);
            v
        },
    }
}

} // verus!
