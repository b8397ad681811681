//! Scope tokens and the space-separated list that carries them.
use vstd::prelude::*;
use vstd::std_specs::convert::{FromSpecImpl, TryFromSpecImpl};
use vstd::string::*;
use vstd::utf8::{encode_scalar, encode_utf8};

verus! {

/// Whether `c` may stand in a scope token: printable ASCII without the space, the
/// double quote and the backslash. These are the characters that UTF-8 writes as one
/// scope byte, see [`lemma_scope_token_bytes`].
pub open spec fn is_scope_char(c: char) -> bool {
    c == '!' || '#' <= c <= '[' || ']' <= c <= '~'
}

/// Whether `byte` may stand in a scope token: `0x21`, `0x23` to `0x5B`, or `0x5D` to
/// `0x7E`.
pub open spec fn is_scope_byte(byte: u8) -> bool {
    byte == 0x21 || 0x23 <= byte <= 0x5B || 0x5D <= byte <= 0x7E
}

/// Whether `text` is a scope token: not empty, and made of scope characters only.
pub open spec fn is_scope_token(text: Seq<char>) -> bool {
    text.len() > 0 && forall|i: int| 0 <= i < text.len() ==> is_scope_char(#[trigger] text[i])
}

/// The pieces of `text` between its spaces, in order. A text without a space is one
/// piece; two adjacent spaces, or a space at either end, give an empty piece.
pub open spec fn split_at_spaces(text: Seq<char>) -> Seq<Seq<char>>
    decreases text.len(),
{
    if text.len() == 0 {
        seq![Seq::empty()]
    } else {
        let before = split_at_spaces(text.drop_last());
        if text.last() == ' ' {
            before.push(Seq::empty())
        } else {
            before.drop_last().push(before.last().push(text.last()))
        }
    }
}

/// The first of `tokens` that is not a scope token, if there is one.
pub open spec fn first_invalid_token(tokens: Seq<Seq<char>>) -> Option<Seq<char>>
    decreases tokens.len(),
{
    if tokens.len() == 0 {
        None
    } else {
        match first_invalid_token(tokens.drop_last()) {
            Some(token) => Some(token),
            None => if is_scope_token(tokens.last()) {
                None
            } else {
                Some(tokens.last())
            },
        }
    }
}

/// What a scope parameter with the value `text` asks for: the tokens in the order and
/// number in which they were sent, or the first piece that is not a token. An empty
/// value asks for nothing.
pub open spec fn scope_list(text: Seq<char>) -> Result<Seq<Seq<char>>, Seq<char>> {
    if text.len() == 0 {
        Ok(Seq::empty())
    } else {
        match first_invalid_token(split_at_spaces(text)) {
            Some(token) => Err(token),
            None => Ok(split_at_spaces(text)),
        }
    }
}

/// `tokens` written as one text, with a space between neighbours.
pub open spec fn join_with_spaces(tokens: Seq<Seq<char>>) -> Seq<char>
    decreases tokens.len(),
{
    if tokens.len() == 0 {
        Seq::empty()
    } else if tokens.len() == 1 {
        tokens[0]
    } else {
        join_with_spaces(tokens.drop_last()) + seq![' '] + tokens.last()
    }
}

/// A single requested permission.
#[derive(Debug, PartialEq, Eq)]
pub struct Scope(String);

/// The rejected piece of a scope value, as it was sent.
#[derive(Debug, PartialEq, Eq)]
pub struct InvalidScope(pub String);

/// The requested permissions, in the order in which they were sent. A permission sent
/// twice stands twice.
#[derive(Debug, PartialEq, Eq)]
pub struct ScopeList(pub Vec<Scope>);

impl View for Scope {
    type V = Seq<char>;

    closed spec fn view(&self) -> Seq<char> {
        self.0@
    }
}

impl View for ScopeList {
    type V = Seq<Seq<char>>;

    open spec fn view(&self) -> Seq<Seq<char>> {
        self.0@.map_values(|scope: Scope| scope@)
    }
}

fn check_scope_byte(byte: u8) -> (valid: bool)
    ensures
        valid == is_scope_byte(byte),
{
    byte == 0x21 || (0x23 <= byte && byte <= 0x5B) || (0x5D <= byte && byte <= 0x7E)
}

/// Whether `text` is a scope token. The check runs over the bytes of the text.
pub fn check_scope_token(text: &str) -> (valid: bool)
    ensures
        valid == is_scope_token(text@),
{
    let bytes = text.as_bytes();
    proof {
        lemma_scope_token_bytes(text@);
    }
    if bytes.len() == 0 {
        return false;
    }
    let mut i: usize = 0;
    while i < bytes.len()
        invariant
            i <= bytes@.len(),
            bytes@.len() > 0,
            is_scope_token(text@) <==> forall|j: int|
                0 <= j < bytes@.len() ==> is_scope_byte(#[trigger] bytes@[j]),
            forall|j: int| 0 <= j < i ==> is_scope_byte(#[trigger] bytes@[j]),
        decreases bytes@.len() - i,
    {
        if !check_scope_byte(bytes[i]) {
            return false;
        }
        i = i + 1;
    }
    true
}

impl Scope {
    #[verifier::type_invariant]
    spec fn is_token(self) -> bool {
        is_scope_token(self.0@)
    }

    /// The token's text.
    pub fn as_str(&self) -> (text: &str)
        ensures
            text@ == self@,
            is_scope_token(text@),
    {
        proof {
            use_type_invariant(self);
        }
        self.0.as_str()
    }
}

impl TryFromSpecImpl<&str> for Scope {
    /// The result owns its text, which no spec function can build: [`TryFrom::try_from`]
    /// states its result over the views instead.
    open spec fn obeys_try_from_spec() -> bool {
        false
    }

    open spec fn try_from_spec(value: &str) -> Result<Self, InvalidScope> {
        arbitrary()
    }
}

impl TryFrom<&str> for Scope {
    type Error = InvalidScope;

    /// Accepts `value` as a scope exactly when it is a scope token, and hands the text
    /// back unchanged otherwise.
    fn try_from(value: &str) -> (checked: Result<Self, InvalidScope>)
        ensures
            match checked {
                Ok(scope) => is_scope_token(value@) && scope@ == value@,
                Err(invalid) => !is_scope_token(value@) && invalid.0@ == value@,
            },
    {
        if check_scope_token(value) {
            Ok(Scope(value.to_owned()))
        } else {
            Err(InvalidScope(value.to_owned()))
        }
    }
}

/// Cuts `text` at every space.
pub fn split_scopes(text: &str) -> (pieces: Vec<String>)
    ensures
        pieces.deep_view() == split_at_spaces(text@),
{
    let mut pieces: Vec<String> = Vec::new();
    let mut piece = String::new();
    assert(pieces.deep_view().push(piece@) == split_at_spaces(text@.take(0)));
    for c in it: text.chars()
        invariant
            it.seq() == text@,
            pieces.deep_view().push(piece@) == split_at_spaces(text@.take(it.index() as int)),
    {
        let ghost seen = text@.take(it.index() as int);
        let ghost next = text@.take(it.index() + 1);
        assert(next.drop_last() == seen);
        assert(next.last() == c);
        let ghost before = pieces.deep_view();
        if c == ' ' {
            pieces.push(piece);
            piece = String::new();
            assert(pieces.deep_view() == before.push(pieces@.last()@));
        } else {
            piece.push(c);
            assert(before.push(piece@) == split_at_spaces(seen).drop_last().push(
                split_at_spaces(seen).last().push(c),
            ));
        }
    }
    assert(text@.take(text@.len() as int) == text@);
    let ghost before = pieces.deep_view();
    pieces.push(piece);
    assert(pieces.deep_view() == before.push(pieces@.last()@));
    pieces
}

impl TryFromSpecImpl<&str> for ScopeList {
    /// As for [`Scope`]: the result is stated over the views.
    open spec fn obeys_try_from_spec() -> bool {
        false
    }

    open spec fn try_from_spec(values: &str) -> Result<Self, InvalidScope> {
        arbitrary()
    }
}

impl TryFrom<&str> for ScopeList {
    type Error = InvalidScope;

    /// Reads the value of a scope parameter: see [`scope_list`].
    fn try_from(values: &str) -> (parsed: Result<Self, InvalidScope>)
        ensures
            match parsed {
                Ok(list) => scope_list(values@) == Ok::<Seq<Seq<char>>, Seq<char>>(list@),
                Err(invalid) => scope_list(values@) == Err::<Seq<Seq<char>>, Seq<char>>(
                    invalid.0@,
                ),
            },
    {
        let mut scopes: Vec<Scope> = Vec::new();
        if values.is_empty() {
            assert(ScopeList(scopes)@ == Seq::<Seq<char>>::empty());
            return Ok(ScopeList(scopes));
        }
        let pieces = split_scopes(values);
        let ghost all = pieces.deep_view();
        let mut i: usize = 0;
        while i < pieces.len()
            invariant
                i <= pieces@.len(),
                values@.len() > 0,
                all == pieces.deep_view(),
                all == split_at_spaces(values@),
                first_invalid_token(all.take(i as int)) is None,
                ScopeList(scopes)@ == all.take(i as int),
            decreases pieces@.len() - i,
        {
            let ghost seen = all.take(i as int);
            let ghost next = all.take(i + 1);
            assert(next.drop_last() == seen);
            assert(next.last() == pieces@[i as int]@);
            match Scope::try_from(pieces[i].as_str()) {
                Ok(scope) => {
                    let ghost before = ScopeList(scopes)@;
                    scopes.push(scope);
                    assert(ScopeList(scopes)@ == before.push(scope@));
                },
                Err(invalid) => {
                    proof {
                        assert(first_invalid_token(next) == Some(invalid.0@));
                        lemma_first_invalid_token_stays(all, i + 1);
                    }
                    return Err(invalid);
                },
            }
            i = i + 1;
        }
        assert(all.take(i as int) == all);
        Ok(ScopeList(scopes))
    }
}

impl FromSpecImpl<Scope> for String {
    /// As for [`Scope`]: the result is stated over the views.
    open spec fn obeys_from_spec() -> bool {
        false
    }

    open spec fn from_spec(scope: Scope) -> String {
        arbitrary()
    }
}

impl From<Scope> for String {
    /// The token's text.
    fn from(scope: Scope) -> (text: String)
        ensures
            text@ == scope@,
    {
        scope.0
    }
}

impl FromSpecImpl<ScopeList> for String {
    /// As for [`Scope`]: the result is stated over the views.
    open spec fn obeys_from_spec() -> bool {
        false
    }

    open spec fn from_spec(scope_list: ScopeList) -> String {
        arbitrary()
    }
}

impl From<ScopeList> for String {
    /// Writes the list as the value of a scope parameter: see [`join_with_spaces`].
    fn from(scope_list: ScopeList) -> (text: String)
        ensures
            text@ == join_with_spaces(scope_list@),
    {
        let ghost tokens = scope_list@;
        let scopes = scope_list.0;
        let mut text = String::new();
        let mut first = true;
        for scope in it: scopes
            invariant
                it.seq() == scopes@,
                tokens == scopes@.map_values(|scope: Scope| scope@),
                first == (it.index() == 0),
                text@ == join_with_spaces(tokens.take(it.index() as int)),
        {
            let ghost i = it.index() as int;
            proof {
                assert(tokens.take(i + 1).drop_last() == tokens.take(i));
                assert(tokens.take(i + 1).last() == scope@);
                reveal_strlit(" ");
                assert(" "@ == seq![' ']);
                assert(i == 0 ==> text@ + scope@ == scope@);
            }
            if !first {
                text.append(" ");
            }
            text.append(scope.as_str());
            first = false;
        }
        assert(tokens.take(tokens.len() as int) == tokens);
        text
    }
}

/// The UTF-8 encoding of a character starts with the character itself where that is
/// ASCII, and with a byte from `0xC0` on where it is not.
proof fn lemma_first_byte(c: char)
    ensures
        encode_scalar(c as u32).len() > 0,
        c <= '\u{7f}' ==> encode_scalar(c as u32) == seq![c as u8] && is_scope_byte(c as u8)
            == is_scope_char(c),
        c > '\u{7f}' ==> !is_scope_char(c),
        c > '\u{7f}' ==> encode_scalar(c as u32)[0] >= 0xC0,
{
    let scalar = c as u32;
    assert(scalar <= 0x7F ==> (scalar & 0x7F) as u8 == scalar as u8) by (bit_vector);
    assert(0xC0u8 | ((scalar >> 6) & 0x1F) as u8 >= 0xC0) by (bit_vector);
    assert(0xE0u8 | ((scalar >> 12) & 0x0F) as u8 >= 0xC0) by (bit_vector);
    assert(0xF0u8 | ((scalar >> 18) & 0x7) as u8 >= 0xC0) by (bit_vector);
}

/// A text is made of scope characters exactly when its UTF-8 encoding is made of scope
/// bytes.
proof fn lemma_scope_characters_are_scope_bytes(text: Seq<char>)
    ensures
        (forall|i: int| 0 <= i < text.len() ==> is_scope_char(#[trigger] text[i])) <==> (forall|
            i: int,
        | 0 <= i < encode_utf8(text).len() ==> is_scope_byte(#[trigger] encode_utf8(text)[i])),
        text.len() > 0 <==> encode_utf8(text).len() > 0,
    decreases text.len(),
{
    if text.len() > 0 {
        let first = text[0];
        let rest = text.drop_first();
        let head = encode_scalar(first as u32);
        let tail = encode_utf8(rest);
        let bytes = encode_utf8(text);
        lemma_first_byte(first);
        lemma_scope_characters_are_scope_bytes(rest);
        assert(bytes == head + tail);
        assert(bytes[0] == head[0]);
        if forall|i: int| 0 <= i < text.len() ==> is_scope_char(#[trigger] text[i]) {
            assert(is_scope_char(text[0]));
            assert forall|i: int| 0 <= i < rest.len() implies is_scope_char(
                #[trigger] rest[i],
            ) by {
                assert(rest[i] == text[i + 1]);
            }
            assert forall|i: int| 0 <= i < bytes.len() implies is_scope_byte(
                #[trigger] bytes[i],
            ) by {
                if i > 0 {
                    assert(bytes[i] == tail[i - 1]);
                }
            }
        }
        if forall|i: int| 0 <= i < bytes.len() ==> is_scope_byte(#[trigger] bytes[i]) {
            assert(is_scope_byte(bytes[0]));
            assert(head == seq![first as u8]);
            assert forall|i: int| 0 <= i < tail.len() implies is_scope_byte(
                #[trigger] tail[i],
            ) by {
                assert(tail[i] == bytes[i + 1]);
            }
            assert forall|i: int| 0 <= i < text.len() implies is_scope_char(
                #[trigger] text[i],
            ) by {
                if i > 0 {
                    assert(text[i] == rest[i - 1]);
                }
            }
        }
    }
}

/// A scope token, said over bytes: its UTF-8 encoding is not empty and made of scope
/// bytes only.
pub proof fn lemma_scope_token_bytes(text: Seq<char>)
    ensures
        is_scope_token(text) <==> encode_utf8(text).len() > 0 && forall|i: int|
            0 <= i < encode_utf8(text).len() ==> is_scope_byte(#[trigger] encode_utf8(text)[i]),
{
    lemma_scope_characters_are_scope_bytes(text);
}

/// What [`first_invalid_token`] finds is a piece that is no scope token and has only
/// scope tokens before it; it finds nothing exactly when every piece is a scope token.
pub proof fn lemma_first_invalid_token(tokens: Seq<Seq<char>>)
    ensures
        match first_invalid_token(tokens) {
            Some(token) => exists|i: int|
                0 <= i < tokens.len() && #[trigger] tokens[i] == token && !is_scope_token(token)
                    && forall|j: int| 0 <= j < i ==> is_scope_token(#[trigger] tokens[j]),
            None => forall|i: int| 0 <= i < tokens.len() ==> is_scope_token(#[trigger] tokens[i]),
        },
    decreases tokens.len(),
{
    if tokens.len() > 0 {
        let before = tokens.drop_last();
        lemma_first_invalid_token(before);
        match first_invalid_token(before) {
            Some(token) => {
                let i = choose|i: int|
                    0 <= i < before.len() && #[trigger] before[i] == token && !is_scope_token(
                        token,
                    ) && forall|j: int| 0 <= j < i ==> is_scope_token(#[trigger] before[j]);
                assert(tokens[i] == token);
                assert forall|j: int| 0 <= j < i implies is_scope_token(#[trigger] tokens[j]) by {
                    assert(tokens[j] == before[j]);
                }
            },
            None => {
                assert forall|j: int| 0 <= j < tokens.len() - 1 implies is_scope_token(
                    #[trigger] tokens[j],
                ) by {
                    assert(tokens[j] == before[j]);
                }
                if !is_scope_token(tokens.last()) {
                    assert(tokens[tokens.len() - 1] == tokens.last());
                }
            },
        }
    }
}

/// A piece that holds a space, a double quote, a backslash, a control character or
/// anything that is not ASCII is no scope token.
pub proof fn law_rejected_character(token: Seq<char>, i: int)
    requires
        0 <= i < token.len(),
        token[i] == ' ' || token[i] == '"' || token[i] == '\\' || token[i] < ' ' || token[i]
            > '~',
    ensures
        !is_scope_token(token),
{
}

/// A text without a space is one piece.
pub proof fn lemma_split_without_space(text: Seq<char>)
    requires
        !text.contains(' '),
    ensures
        split_at_spaces(text) == seq![text],
    decreases text.len(),
{
    if text.len() == 0 {
        assert(text == Seq::<char>::empty());
    } else {
        let before = text.drop_last();
        assert forall|i: int| 0 <= i < before.len() implies before[i] != ' ' by {
            assert(text.contains(text[i]));
        }
        assert(text.contains(text.last()));
        lemma_split_without_space(before);
        assert(before.push(text.last()) == text);
        assert(seq![before].last() == before);
        assert(seq![before].drop_last().push(seq![before].last().push(text.last())) == seq![
            text,
        ]);
    }
}

/// What follows the last space of a text is its last piece.
pub proof fn lemma_split_after_space(front: Seq<char>, back: Seq<char>)
    requires
        !back.contains(' '),
    ensures
        split_at_spaces(front + seq![' '] + back) == split_at_spaces(front).push(back),
    decreases back.len(),
{
    let text = front + seq![' '] + back;
    if back.len() == 0 {
        assert(text.drop_last() == front);
        assert(back == Seq::<char>::empty());
    } else {
        let rest = back.drop_last();
        assert forall|i: int| 0 <= i < rest.len() implies rest[i] != ' ' by {
            assert(back.contains(back[i]));
        }
        assert(back.contains(back.last()));
        lemma_split_after_space(front, rest);
        assert(text.drop_last() == front + seq![' '] + rest);
        assert(text.last() == back.last());
        let before = split_at_spaces(front).push(rest);
        assert(rest.push(back.last()) == back);
        assert(before.last() == rest);
        assert(before.drop_last() == split_at_spaces(front));
        assert(before.drop_last().push(before.last().push(back.last())) == split_at_spaces(
            front,
        ).push(back));
    }
}

/// Cutting a text at its spaces loses nothing: the pieces hold no space, and joined
/// with spaces they are the text again.
pub proof fn law_split_then_join(text: Seq<char>)
    ensures
        split_at_spaces(text).len() > 0,
        forall|i: int|
            0 <= i < split_at_spaces(text).len() ==> !(#[trigger] split_at_spaces(
                text,
            )[i]).contains(' '),
        join_with_spaces(split_at_spaces(text)) == text,
    decreases text.len(),
{
    if text.len() == 0 {
        assert(!Seq::<char>::empty().contains(' '));
        assert(text == Seq::<char>::empty());
    } else {
        let before = split_at_spaces(text.drop_last());
        law_split_then_join(text.drop_last());
        let pieces = split_at_spaces(text);
        assert(text == text.drop_last().push(text.last()));
        if text.last() == ' ' {
            assert(pieces.drop_last() == before);
            assert(!Seq::<char>::empty().contains(' '));
            assert(join_with_spaces(before) + seq![' '] + Seq::<char>::empty() == text);
        } else {
            let grown = before.last().push(text.last());
            assert forall|i: int| 0 <= i < grown.len() implies grown[i] != ' ' by {
                if i < before.last().len() {
                    assert(before.last().contains(before.last()[i]));
                }
            }
            assert(pieces.drop_last() == before.drop_last());
            if before.len() > 1 {
                assert(join_with_spaces(before.drop_last()) + seq![' '] + grown == (
                join_with_spaces(before.drop_last()) + seq![' '] + before.last()).push(
                    text.last(),
                ));
            }
        }
    }
}

/// Joining pieces that hold no space and cutting the text at its spaces gives the
/// pieces again. With [`law_split_then_join`]: the pieces of a text are the one list of
/// space-free texts that joins to it.
pub proof fn law_join_then_split(pieces: Seq<Seq<char>>)
    requires
        pieces.len() > 0,
        forall|i: int| 0 <= i < pieces.len() ==> !(#[trigger] pieces[i]).contains(' '),
    ensures
        split_at_spaces(join_with_spaces(pieces)) == pieces,
    decreases pieces.len(),
{
    let last = pieces.last();
    assert(!pieces[pieces.len() - 1].contains(' '));
    if pieces.len() == 1 {
        lemma_split_without_space(last);
        assert(pieces == seq![last]);
    } else {
        let before = pieces.drop_last();
        assert forall|i: int| 0 <= i < before.len() implies !(#[trigger] before[i]).contains(
            ' ',
        ) by {
            assert(before[i] == pieces[i]);
        }
        law_join_then_split(before);
        lemma_split_after_space(join_with_spaces(before), last);
        assert(before.push(last) == pieces);
    }
}

/// Writing a list of scopes and reading it again gives the same list.
pub proof fn law_join_then_parse(tokens: Seq<Seq<char>>)
    requires
        forall|i: int| 0 <= i < tokens.len() ==> is_scope_token(#[trigger] tokens[i]),
    ensures
        scope_list(join_with_spaces(tokens)) == Ok::<Seq<Seq<char>>, Seq<char>>(tokens),
{
    if tokens.len() == 0 {
        assert(tokens == Seq::<Seq<char>>::empty());
    } else {
        assert forall|i: int| 0 <= i < tokens.len() implies !(#[trigger] tokens[i]).contains(
            ' ',
        ) by {
            assert(is_scope_token(tokens[i]));
            if tokens[i].contains(' ') {
                let at = choose|at: int| 0 <= at < tokens[i].len() && tokens[i][at] == ' ';
                assert(is_scope_char(tokens[i][at]));
            }
        }
        law_join_then_split(tokens);
        assert(is_scope_token(tokens[0]));
        lemma_join_length(tokens);
        lemma_first_invalid_token(tokens);
    }
}

/// A list of scopes, written out, is at least as long as its first scope.
pub proof fn lemma_join_length(tokens: Seq<Seq<char>>)
    requires
        tokens.len() > 0,
    ensures
        join_with_spaces(tokens).len() >= tokens[0].len(),
    decreases tokens.len(),
{
    if tokens.len() > 1 {
        lemma_join_length(tokens.drop_last());
    }
}

/// Once a piece is rejected, the pieces after it are not looked at.
pub proof fn lemma_first_invalid_token_stays(tokens: Seq<Seq<char>>, n: int)
    requires
        0 <= n <= tokens.len(),
        first_invalid_token(tokens.take(n)) is Some,
    ensures
        first_invalid_token(tokens) == first_invalid_token(tokens.take(n)),
    decreases tokens.len() - n,
{
    if n < tokens.len() {
        assert(tokens.take(n + 1).drop_last() == tokens.take(n));
        lemma_first_invalid_token_stays(tokens, n + 1);
    } else {
        assert(tokens.take(n) == tokens);
    }
}

} // verus!
