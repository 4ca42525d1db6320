//! Tidying the texts of a form before they are taken: the rule that the
//! schema names for a field, applied to the text that the field holds.

use crate::entity::{copy_field, field_value, Entity, Scalar, ScalarValue};
use crate::null::Null;
use crate::schema::{Sanitize, Schema};
use crate::text::{chars_of, join, joined, lowercase, lowercased, text_of, texts, trim, trimmed};
use vstd::prelude::*;

verus! {

/// What `titlecase::titlecase` makes of a text.
pub uninterp spec fn titlecased(text: Seq<char>) -> Seq<char>;

/// `titlecase::titlecase`: the text in title case, a function of the text
/// alone.
#[verifier::external_body]
fn titlecase(text: &str) -> (r: String)
    ensures
        r@ == titlecased(text@),
{
    titlecase::titlecase(text)
}

/// The pieces of `s` between the characters `c`: one more than there are
/// such characters, each piece possibly empty.
pub open spec fn split_on(s: Seq<char>, c: char) -> Seq<Seq<char>>
    decreases s.len(),
{
    if s.len() == 0 {
        seq![Seq::empty()]
    } else {
        let front = split_on(s.drop_last(), c);
        if s.last() == c {
            front.push(Seq::empty())
        } else {
            front.drop_last().push(front.last().push(s.last()))
        }
    }
}

/// A word of a name as it is written: a lone dot is dropped, `Jr.` and
/// `Sr.` lose their dot, and a Roman numeral up to twenty is written in
/// capitals. Any other word stays as it is.
pub open spec fn name_word(word: Seq<char>) -> Seq<char> {
    if word == "."@ {
        ""@
    } else if word == "Jr."@ {
        "Jr"@
    } else if word == "Sr."@ {
        "Sr"@
    } else if word == "Ii"@ {
        "II"@
    } else if word == "Iii"@ {
        "III"@
    } else if word == "Iv"@ {
        "IV"@
    } else if word == "Vi"@ {
        "VI"@
    } else if word == "Vii"@ {
        "VII"@
    } else if word == "Viii"@ {
        "VIII"@
    } else if word == "Ix"@ {
        "IX"@
    } else if word == "Xi"@ {
        "XI"@
    } else if word == "Xii"@ {
        "XII"@
    } else if word == "Xiii"@ {
        "XIII"@
    } else if word == "Xiv"@ {
        "XIV"@
    } else if word == "Xv"@ {
        "XV"@
    } else if word == "Xvi"@ {
        "XVI"@
    } else if word == "Xvii"@ {
        "XVII"@
    } else if word == "Xviii"@ {
        "XVIII"@
    } else if word == "Xix"@ {
        "XIX"@
    } else if word == "Xx"@ {
        "XX"@
    } else {
        word
    }
}

/// A name as it is written: each of its words, as the spaces part them, in
/// title case and then written as a word of a name, with one space between
/// each two. A text that is all whitespace stays as it is.
pub open spec fn normalized_name(text: Seq<char>) -> Seq<char> {
    let inner = trimmed(text);
    if inner.len() == 0 {
        text
    } else {
        joined(split_on(inner, ' ').map_values(|w: Seq<char>| name_word(titlecased(w))), " "@)
    }
}

/// `s` without the characters `c` at its end.
pub open spec fn without_trailing(s: Seq<char>, c: char) -> Seq<char>
    decreases s.len(),
{
    if s.len() > 0 && s.last() == c {
        without_trailing(s.drop_last(), c)
    } else {
        s
    }
}

/// What a rule makes of a text.
pub open spec fn sanitized_text(rule: Sanitize, text: Seq<char>) -> Seq<char> {
    match rule {
        Sanitize::Keep => text,
        Sanitize::Trim => trimmed(text),
        Sanitize::TrimSlash => trimmed(without_trailing(trimmed(text), '/')),
        Sanitize::Lowercase => lowercased(trimmed(text)),
        Sanitize::NormalizeName => normalized_name(text),
    }
}

/// What a rule makes of a field: of a text that is not empty, the tidied
/// text; of anything else, what it was.
pub open spec fn sanitized_field(rule: Sanitize, field: Null<ScalarValue>) -> Null<ScalarValue> {
    match field {
        Null::Value(ScalarValue::Text(t)) => if t.len() == 0 {
            field
        } else {
            Null::Value(ScalarValue::Text(sanitized_text(rule, t)))
        },
        _ => field,
    }
}

/// The rule of field `index`. A field that the schema does not describe is
/// kept as it is.
pub open spec fn rule_at(schema: &Schema, index: int) -> Sanitize {
    if 0 <= index < schema.fields@.len() {
        schema.fields@[index].sanitize
    } else {
        Sanitize::Keep
    }
}

/// The form with each field tidied by its rule.
pub open spec fn sanitized_entity(form: Seq<Null<ScalarValue>>, schema: &Schema) -> Seq<
    Null<ScalarValue>,
> {
    Seq::new(form.len(), |i: int| sanitized_field(rule_at(schema, i), form[i]))
}

/// `text` without the characters `c` at its end.
pub fn trim_end(text: &str, c: char) -> (r: String)
    ensures
        r@ == without_trailing(text@, c),
{
    let chars = chars_of(text);
    let mut end: usize = chars.len();
    assert(chars@.take(end as int) =~= chars@);
    while end > 0 && chars[end - 1] == c
        invariant
            end <= chars.len(),
            without_trailing(chars@, c) == without_trailing(chars@.take(end as int), c),
        decreases end,
    {
        assert(chars@.take(end as int).drop_last() =~= chars@.take(end - 1));
        end -= 1;
    }
    let mut kept: Vec<char> = Vec::new();
    let mut i: usize = 0;
    while i < end
        invariant
            i <= end <= chars.len(),
            kept@ == chars@.take(i as int),
        decreases end - i,
    {
        kept.push(chars[i]);
        assert(chars@.take(i + 1) =~= chars@.take(i as int).push(chars@[i as int]));
        i += 1;
    }
    text_of(&kept)
}

/// The pieces of `text` between the characters `c`.
pub fn split(text: &str, c: char) -> (r: Vec<String>)
    ensures
        texts(r@) == split_on(text@, c),
{
    let chars = chars_of(text);
    let mut done: Vec<String> = Vec::new();
    let mut piece = String::new();
    let mut i: usize = 0;
    proof {
        assert(chars@.take(0) =~= Seq::<char>::empty());
        assert(texts(done@).push(piece@) =~= split_on(chars@.take(0), c));
    }
    while i < chars.len()
        invariant
            i <= chars.len(),
            texts(done@).push(piece@) == split_on(chars@.take(i as int), c),
        decreases chars.len() - i,
    {
        let ghost before = split_on(chars@.take(i as int), c);
        let ghost old_done = texts(done@);
        let ghost old_piece = piece@;
        proof {
            assert(chars@.take(i + 1).drop_last() =~= chars@.take(i as int));
            assert(chars@.take(i + 1).last() == chars@[i as int]);
            assert(before.last() == old_piece);
            assert(before.drop_last() =~= old_done);
        }
        if chars[i] == c {
            done.push(piece);
            piece = String::new();
            assert(texts(done@) =~= old_done.push(old_piece));
        } else {
            piece.push(chars[i]);
        }
        i += 1;
    }
    assert(chars@.take(i as int) =~= chars@);
    let ghost all_done = texts(done@);
    done.push(piece);
    assert(texts(done@) =~= all_done.push(piece@));
    done
}

/// A word of a name as it is written.
pub fn write_name_word(word: String) -> (r: String)
    ensures
        r@ == name_word(word@),
{
    if word == String::from_str(".") {
        String::from_str("")
    } else if word == String::from_str("Jr.") {
        String::from_str("Jr")
    } else if word == String::from_str("Sr.") {
        String::from_str("Sr")
    } else if word == String::from_str("Ii") {
        String::from_str("II")
    } else if word == String::from_str("Iii") {
        String::from_str("III")
    } else if word == String::from_str("Iv") {
        String::from_str("IV")
    } else if word == String::from_str("Vi") {
        String::from_str("VI")
    } else if word == String::from_str("Vii") {
        String::from_str("VII")
    } else if word == String::from_str("Viii") {
        String::from_str("VIII")
    } else if word == String::from_str("Ix") {
        String::from_str("IX")
    } else if word == String::from_str("Xi") {
        String::from_str("XI")
    } else if word == String::from_str("Xii") {
        String::from_str("XII")
    } else if word == String::from_str("Xiii") {
        String::from_str("XIII")
    } else if word == String::from_str("Xiv") {
        String::from_str("XIV")
    } else if word == String::from_str("Xv") {
        String::from_str("XV")
    } else if word == String::from_str("Xvi") {
        String::from_str("XVI")
    } else if word == String::from_str("Xvii") {
        String::from_str("XVII")
    } else if word == String::from_str("Xviii") {
        String::from_str("XVIII")
    } else if word == String::from_str("Xix") {
        String::from_str("XIX")
    } else if word == String::from_str("Xx") {
        String::from_str("XX")
    } else {
        word
    }
}

/// A name as it is written.
pub fn normalize_name(text: &str) -> (r: String)
    ensures
        r@ == normalized_name(text@),
{
    let inner = trim(text);
    if inner.as_str().is_empty() {
        return String::from_str(text);
    }
    let words = split(inner.as_str(), ' ');
    let mut written: Vec<String> = Vec::new();
    let mut i: usize = 0;
    while i < words.len()
        invariant
            i <= words.len(),
            written@.len() == i,
            forall|k: int|
                0 <= k < i ==> (#[trigger] written@[k])@ == name_word(titlecased(words@[k]@)),
        decreases words.len() - i,
    {
        written.push(write_name_word(titlecase(words[i].as_str())));
        i += 1;
    }
    assert(texts(written@) =~= split_on(inner@, ' ').map_values(
        |w: Seq<char>| name_word(titlecased(w)),
    ));
    join(&written, " ")
}

/// What a rule makes of a text.
pub fn sanitize_text(rule: Sanitize, text: &str) -> (r: String)
    ensures
        r@ == sanitized_text(rule, text@),
{
    match rule {
        Sanitize::Keep => String::from_str(text),
        Sanitize::Trim => trim(text),
        Sanitize::TrimSlash => {
            let inner = trim(text);
            let cut = trim_end(inner.as_str(), '/');
            trim(cut.as_str())
        },
        Sanitize::Lowercase => {
            let inner = trim(text);
            lowercase(inner.as_str())
        },
        Sanitize::NormalizeName => normalize_name(text),
    }
}

/// What a rule makes of a field.
pub fn sanitize_field(rule: Sanitize, field: &Null<Scalar>) -> (r: Null<Scalar>)
    ensures
        field_value(r) == sanitized_field(rule, field_value(*field)),
{
    match field {
        Null::Value(Scalar::Text(t)) => if t.as_str().is_empty() {
            copy_field(field)
        } else {
            Null::Value(Scalar::Text(sanitize_text(rule, t.as_str())))
        },
        _ => copy_field(field),
    }
}

impl Schema {
    /// The rule of field `index`.
    pub fn rule(&self, index: usize) -> (r: Sanitize)
        ensures
            r == rule_at(self, index as int),
    {
        if index < self.fields.len() {
            self.fields[index].sanitize
        } else {
            Sanitize::Keep
        }
    }
}

impl Entity {
    /// The form with each field tidied by the rule that the schema names
    /// for it.
    pub fn sanitize(&self, schema: &Schema) -> (r: Entity)
        ensures
            r@ == sanitized_entity(self@, schema),
    {
        let mut fields: Vec<Null<Scalar>> = Vec::new();
        let mut i: usize = 0;
        while i < self.fields.len()
            invariant
                i <= self.fields.len(),
                fields@.len() == i,
                forall|k: int|
                    0 <= k < i ==> field_value(#[trigger] fields@[k]) == sanitized_entity(
                        self@,
                        schema,
                    )[k],
            decreases self.fields.len() - i,
        {
            fields.push(sanitize_field(schema.rule(i), &self.fields[i]));
            i += 1;
        }
        let r = Entity { fields };
        assert(r@ =~= sanitized_entity(self@, schema));
        r
    }
}

} // verus!
