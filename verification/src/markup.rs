//! HTML-style chat markup: how numbers and text are written into it, what
//! a document of it is, and why escaped text can never open or close a tag.

use vstd::prelude::*;
use vstd::string::*;

verus! {

/// The character that writes the digit `d`, for `d` below ten.
pub open spec fn digit(d: nat) -> char
    recommends
        d < 10,
{
    if d == 0 {
        '0'
    } else if d == 1 {
        '1'
    } else if d == 2 {
        '2'
    } else if d == 3 {
        '3'
    } else if d == 4 {
        '4'
    } else if d == 5 {
        '5'
    } else if d == 6 {
        '6'
    } else if d == 7 {
        '7'
    } else if d == 8 {
        '8'
    } else {
        '9'
    }
}

/// The decimal numeral of `n`: no sign, no leading zero (but "0" itself).
pub open spec fn decimal(n: nat) -> Seq<char>
    decreases n,
{
    if n < 10 {
        seq![digit(n)]
    } else {
        decimal(n / 10).push(digit(n % 10))
    }
}

/// What one character of text becomes in markup: the three reserved
/// characters turn into entities, every other character stays.
pub open spec fn escape_char(c: char) -> Seq<char> {
    if c == '&' {
        seq!['&', 'a', 'm', 'p', ';']
    } else if c == '<' {
        seq!['&', 'l', 't', ';']
    } else if c == '>' {
        seq!['&', 'g', 't', ';']
    } else {
        seq![c]
    }
}

/// The text `s` as character data of the markup, character by character.
pub open spec fn escape(s: Seq<char>) -> Seq<char>
    decreases s.len(),
{
    if s.len() == 0 {
        Seq::empty()
    } else {
        escape(s.drop_last()) + escape_char(s.last())
    }
}

/// Whether one of the three entities starts at position `i` of `s`.
pub open spec fn entity_at(s: Seq<char>, i: int) -> bool {
    ||| i + 5 <= s.len() && s.subrange(i, i + 5) == seq!['&', 'a', 'm', 'p', ';']
    ||| i + 4 <= s.len() && s.subrange(i, i + 4) == seq!['&', 'l', 't', ';']
    ||| i + 4 <= s.len() && s.subrange(i, i + 4) == seq!['&', 'g', 't', ';']
}

/// Whether `s` is character data: it holds no `<` and no `>`, and every `&`
/// in it starts an entity. Such a string opens and closes no tag.
pub open spec fn is_character_data(s: Seq<char>) -> bool {
    forall|i: int|
        0 <= i < s.len() ==> {
            &&& #[trigger] s[i] != '<'
            &&& s[i] != '>'
            &&& s[i] == '&' ==> entity_at(s, i)
        }
}

/// Whether `s` holds none of the characters that the markup reserves, nor a
/// double quote.
pub open spec fn is_plain(s: Seq<char>) -> bool {
    forall|i: int|
        0 <= i < s.len() ==> {
            &&& #[trigger] s[i] != '<'
            &&& s[i] != '>'
            &&& s[i] != '&'
            &&& s[i] != '"'
        }
}

/// A document of the markup: text, bold text, a link, or one document after
/// another.
pub enum Markup {
    Text(Seq<char>),
    Bold(Box<Markup>),
    Link { href: Seq<char>, body: Box<Markup> },
    Then(Box<Markup>, Box<Markup>),
}

impl Markup {
    /// The document as it is written: text as character data, a bold part
    /// and a link each between their opening and their closing tag.
    pub open spec fn render(self) -> Seq<char>
        decreases self,
    {
        match self {
            Markup::Text(text) => escape(text),
            Markup::Bold(body) => seq!['<', 'b', '>'] + body.render() + seq!['<', '/', 'b', '>'],
            Markup::Link { href, body } => seq!['<', 'a', ' ', 'h', 'r', 'e', 'f', '=', '"'] + href
                + seq!['"', '>'] + body.render() + seq!['<', '/', 'a', '>'],
            Markup::Then(first, second) => first.render() + second.render(),
        }
    }

    /// Whether every link address in the document can stand between the
    /// quotes of its tag as it is.
    pub open spec fn valid(self) -> bool
        decreases self,
    {
        match self {
            Markup::Text(_) => true,
            Markup::Bold(body) => body.valid(),
            Markup::Link { href, body } => is_plain(href) && body.valid(),
            Markup::Then(first, second) => first.valid() && second.valid(),
        }
    }
}

/// Whether `s` is well-formed markup: the written form of some document.
/// Every tag in such a string is closed in its turn, and text between the
/// tags holds no tag of its own.
pub open spec fn well_formed(s: Seq<char>) -> bool {
    exists|document: Markup| #[trigger] document.valid() && document.render() == s
}

/// Escaped text is character data, whatever the text: it holds no angle
/// bracket, and each ampersand in it starts an entity.
pub proof fn law_escaped_is_character_data(s: Seq<char>)
    ensures
        is_character_data(escape(s)),
    decreases s.len(),
{
    if s.len() > 0 {
        law_escaped_is_character_data(s.drop_last());
        let head = escape(s.drop_last());
        let tail = escape_char(s.last());
        let all = escape(s);
        assert(all == head + tail);
        assert forall|i: int| 0 <= i < all.len() implies {
            &&& #[trigger] all[i] != '<'
            &&& all[i] != '>'
            &&& all[i] == '&' ==> entity_at(all, i)
        } by {
            if i < head.len() {
                assert(all[i] == head[i]);
                if head[i] == '&' {
                    assert(entity_at(head, i));
                    if i + 5 <= head.len() {
                        assert(all.subrange(i, i + 5) == head.subrange(i, i + 5));
                    }
                    if i + 4 <= head.len() {
                        assert(all.subrange(i, i + 4) == head.subrange(i, i + 4));
                    }
                }
            } else {
                let j = i - head.len();
                assert(all[i] == tail[j]);
                if tail[j] == '&' {
                    assert(j == 0);
                    assert(all.subrange(i, i + tail.len()) == tail);
                }
            }
        }
    }
}

/// Text without reserved characters is written as it is.
pub proof fn lemma_plain_text_is_kept(s: Seq<char>)
    requires
        is_plain(s),
    ensures
        escape(s) == s,
    decreases s.len(),
{
    if s.len() > 0 {
        assert(is_plain(s.drop_last())) by {
            assert forall|i: int| 0 <= i < s.drop_last().len() implies {
                &&& #[trigger] s.drop_last()[i] != '<'
                &&& s.drop_last()[i] != '>'
                &&& s.drop_last()[i] != '&'
                &&& s.drop_last()[i] != '"'
            } by {
                assert(s.drop_last()[i] == s[i]);
            }
        }
        lemma_plain_text_is_kept(s.drop_last());
        assert(s.last() == s[s.len() - 1]);
        assert(s.drop_last() + seq![s.last()] == s);
    }
}

/// A decimal numeral holds nothing but digits.
pub proof fn lemma_decimal_is_plain(n: nat)
    ensures
        is_plain(decimal(n)),
        decimal(n).len() >= 1,
    decreases n,
{
    if n >= 10 {
        lemma_decimal_is_plain(n / 10);
        let head = decimal(n / 10);
        let all = decimal(n);
        assert forall|i: int| 0 <= i < all.len() implies {
            &&& #[trigger] all[i] != '<'
            &&& all[i] != '>'
            &&& all[i] != '&'
            &&& all[i] != '"'
        } by {
            if i < head.len() {
                assert(all[i] == head[i]);
            }
        }
    }
}

/// `String::push` of std: appends the one character to the end of the
/// string and leaves what was there in place.
pub assume_specification[ String::push ](s: &mut String, c: char)
    ensures
        final(s)@ == old(s)@.push(c),
;

fn digit_char(d: u64) -> (c: char)
    requires
        d < 10,
    ensures
        c == digit(d as nat),
{
    match d {
        0 => '0',
        1 => '1',
        2 => '2',
        3 => '3',
        4 => '4',
        5 => '5',
        6 => '6',
        7 => '7',
        8 => '8',
        _ => '9',
    }
}

/// Appends the decimal numeral of `n` to `out`.
pub fn push_decimal(out: &mut String, n: u64)
    ensures
        final(out)@ == old(out)@ + decimal(n as nat),
    decreases n,
{
    if n >= 10 {
        push_decimal(out, n / 10);
    }
    out.push(digit_char(n % 10));
}

/// Appends `s` to `out` as character data: `&`, `<` and `>` are written as
/// entities.
pub fn push_escaped(out: &mut String, s: &str)
    ensures
        final(out)@ == old(out)@ + escape(s@),
{
    broadcast use vstd::string::group_string_axioms;

    for c in it: s.chars()
        invariant
            it.seq() == s@,
            out@ == old(out)@ + escape(s@.take(it.index())),
    {
        proof {
            let done = it.index();
            assert(s@.take(done + 1).drop_last() == s@.take(done));
            assert(s@.take(done + 1).last() == c);
        }
        if c == '&' {
            out.append("&amp;");
            proof {
                reveal_strlit("&amp;");
            }
        } else if c == '<' {
            out.append("&lt;");
            proof {
                reveal_strlit("&lt;");
            }
        } else if c == '>' {
            out.append("&gt;");
            proof {
                reveal_strlit("&gt;");
            }
        } else {
            out.push(c);
        }
        assert(out@ == old(out)@ + escape(s@.take(it.index() + 1)));
    }
    assert(s@.take(s@.len() as int) == s@);
}

} // verus!
