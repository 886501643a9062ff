//! Item specs: an item and one of its fields in one text, `<item>` or
//! `<item>#<field>`.
use vstd::prelude::*;
use vstd::string::*;
use crate::text::{
    ascii_lower_text, begins_with, chars_are, chars_of, find_char, has_prefix, head_to,
    index_from_none, lower_chars, split_once, split_once_is, string_of, tail_from, trim, trim_chars,
};
use crate::vault_core::error::prefixed;
use crate::vault_ipc::proto::Field;

verus! {

/// An item and one of its fields.
#[derive(Clone, Debug, PartialEq, Eq)]
pub struct FieldSpec {
    /// Name of the item.
    pub name: String,
    /// The field.
    pub field: Field,
}

/// What a [`Field`] of an item spec holds.
pub enum SpecFieldView {
    /// Login password.
    Password,
    /// Login username.
    Username,
    /// Notes.
    Notes,
    /// Current one-time code.
    Totp,
    /// A user-defined field.
    Custom(Seq<char>),
}

/// `f` is the field `v`.
pub open spec fn field_is(f: Field, v: SpecFieldView) -> bool {
    match (f, v) {
        (Field::Password, SpecFieldView::Password) => true,
        (Field::Username, SpecFieldView::Username) => true,
        (Field::Notes, SpecFieldView::Notes) => true,
        (Field::Totp, SpecFieldView::Totp) => true,
        (Field::Custom(n), SpecFieldView::Custom(m)) => n@ == m,
        _ => false,
    }
}

/// The field that a keyword stands for, in whichever case. The name of a
/// user-defined field keeps its case.
pub open spec fn field_of(spec: Seq<char>) -> Result<SpecFieldView, Seq<char>> {
    let lower = ascii_lower_text(spec);
    if lower == "password"@ {
        Ok(SpecFieldView::Password)
    } else if lower == "username"@ {
        Ok(SpecFieldView::Username)
    } else if lower == "notes"@ {
        Ok(SpecFieldView::Notes)
    } else if lower == "totp"@ {
        Ok(SpecFieldView::Totp)
    } else if has_prefix(lower, "custom:"@) {
        let name = trim(spec.skip(7));
        if name.len() == 0 {
            Err("custom field spec must include a name, e.g. 'custom:api_key'"@)
        } else {
            Ok(SpecFieldView::Custom(name))
        }
    } else {
        Err(
            "unknown exec field '"@ + spec
                + "' (expected password/username/notes/totp/custom:<name>)"@,
        )
    }
}

/// The item and the field that a text stands for: what is before the first
/// `#`, and after it; the password where there is none.
pub open spec fn spec_of(raw: Seq<char>) -> Result<(Seq<char>, SpecFieldView), Seq<char>> {
    let (name, field) = match split_once(raw, '#') {
        Some((n, f)) => (trim(n), Some(trim(f))),
        None => (trim(raw), None),
    };
    if name.len() == 0 {
        Err("empty item name in exec spec '"@ + raw + "'"@)
    } else {
        match field {
            None => Ok((name, SpecFieldView::Password)),
            Some(f) => match field_of(f) {
                Ok(v) => Ok((name, v)),
                Err(m) => Err(m),
            },
        }
    }
}

fn parse_field(spec: &[char]) -> (r: Result<Field, String>)
    ensures
        match (r, field_of(spec@)) {
            (Ok(f), Ok(v)) => field_is(f, v),
            (Err(m), Err(t)) => m@ == t,
            _ => false,
        },
{
    let lower: Vec<char> = lower_chars(spec);
    let key: &[char] = lower.as_slice();
    if chars_are(key, "password") {
        return Ok(Field::Password);
    }
    if chars_are(key, "username") {
        return Ok(Field::Username);
    }
    if chars_are(key, "notes") {
        return Ok(Field::Notes);
    }
    if chars_are(key, "totp") {
        return Ok(Field::Totp);
    }
    proof {
        reveal_strlit("custom:");
    }
    if begins_with(key, "custom:") {
        let name: &[char] = trim_chars(tail_from(spec, 7));
        if name.len() == 0 {
            return Err("custom field spec must include a name, e.g. 'custom:api_key'".to_owned());
        }
        return Ok(Field::Custom(string_of(name)));
    }
    let text: String = string_of(spec);
    let mut message: String = prefixed("unknown exec field '", text.as_str());
    message.append("' (expected password/username/notes/totp/custom:<name>)");
    Err(message)
}

/// The item and the field that a text stands for.
pub fn parse_item_spec(raw: &str) -> (r: Result<FieldSpec, String>)
    ensures
        match (r, spec_of(raw@)) {
            (Ok(s), Ok((name, v))) => s.name@ == name && field_is(s.field, v),
            (Err(m), Err(t)) => m@ == t,
            _ => false,
        },
{
    let chars: Vec<char> = chars_of(raw);
    let all: &[char] = chars.as_slice();
    let at: usize = find_char(all, '#', 0);
    let name: &[char] = if at < all.len() {
        trim_chars(head_to(all, at))
    } else {
        trim_chars(all)
    };
    if name.len() == 0 {
        let mut message: String = prefixed("empty item name in exec spec '", raw);
        message.append("'");
        return Err(message);
    }
    let field: Field = if at < all.len() {
        parse_field(trim_chars(tail_from(all, at + 1)))?
    } else {
        Field::Password
    };
    Ok(FieldSpec { name: string_of(name), field })
}

/// What stands before the first `#` is the item and what follows it the field;
/// without one the whole text is the item, and its password is meant. White
/// space around either is passed over, and an item must be named.
pub proof fn item_and_field_are_parted(name: Seq<char>, field: Seq<char>)
    requires
        !name.contains('#'),
    ensures
        trim(name).len() > 0 ==> spec_of(name) == Ok::<(Seq<char>, SpecFieldView), Seq<char>>(
            (trim(name), SpecFieldView::Password),
        ),
        trim(name).len() > 0 ==> match field_of(trim(field)) {
            Ok(f) => spec_of(name.push('#') + field) == Ok::<
                (Seq<char>, SpecFieldView),
                Seq<char>,
            >((trim(name), f)),
            Err(m) => spec_of(name.push('#') + field) == Err::<
                (Seq<char>, SpecFieldView),
                Seq<char>,
            >(m),
        },
        trim(name).len() == 0 ==> spec_of(name) is Err && spec_of(name.push('#') + field) is Err,
{
    assert forall|k: int| 0 <= k < name.len() implies name[k] != '#' by {
        if name[k] == '#' {
            assert(name.contains('#'));
        }
    }
    index_from_none(name, '#', 0);
    split_once_is(name, '#', field);
}

/// The four fields are named by their keywords, in whichever case, and nothing
/// else names them.
pub proof fn keywords_name_their_fields(s: Seq<char>)
    ensures
        field_of(s) == Ok::<SpecFieldView, Seq<char>>(SpecFieldView::Password)
            <==> ascii_lower_text(s) == "password"@,
        field_of(s) == Ok::<SpecFieldView, Seq<char>>(SpecFieldView::Username)
            <==> ascii_lower_text(s) == "username"@,
        field_of(s) == Ok::<SpecFieldView, Seq<char>>(SpecFieldView::Notes)
            <==> ascii_lower_text(s) == "notes"@,
        field_of(s) == Ok::<SpecFieldView, Seq<char>>(SpecFieldView::Totp)
            <==> ascii_lower_text(s) == "totp"@,
{
    reveal_strlit("password");
    reveal_strlit("username");
    reveal_strlit("notes");
    reveal_strlit("totp");
    assert("password"@[0] == 'p' && "username"@[0] == 'u');
    assert("notes"@[0] == 'n' && "totp"@[0] == 't');
}

/// Any other field is named behind `custom:`, itself in whichever case; the name
/// keeps its case, and there must be one.
pub proof fn custom_field_keeps_its_name(prefix: Seq<char>, name: Seq<char>)
    requires
        ascii_lower_text(prefix) == "custom:"@,
    ensures
        trim(name).len() > 0 ==> field_of(prefix + name) == Ok::<SpecFieldView, Seq<char>>(
            SpecFieldView::Custom(trim(name)),
        ),
        trim(name).len() == 0 ==> field_of(prefix + name) is Err,
{
    reveal_strlit("custom:");
    reveal_strlit("password");
    reveal_strlit("username");
    reveal_strlit("notes");
    reveal_strlit("totp");
    let s = prefix + name;
    let lower = ascii_lower_text(s);
    assert(prefix.len() == ascii_lower_text(prefix).len());
    assert(lower.take(7) =~= "custom:"@) by {
        assert forall|k: int| 0 <= k < 7 implies lower[k] == "custom:"@[k] by {
            assert(ascii_lower_text(prefix)[k] == "custom:"@[k]);
            assert(s[k] == prefix[k]);
        }
    }
    assert(lower[0] == lower.take(7)[0]);
    assert("password"@[0] == 'p' && "username"@[0] == 'u' && "notes"@[0] == 'n' && "totp"@[0]
        == 't');
    assert(s.skip(7) =~= name);
}

/// A field is taken for the one of its name alone.
pub proof fn fields_are_not_confused(f: Field, v: SpecFieldView)
    ensures
        field_is(f, v) ==> {
            &&& f is Password <==> v is Password
            &&& f is Username <==> v is Username
            &&& f is Notes <==> v is Notes
            &&& f is Totp <==> v is Totp
            &&& f is Custom <==> v is Custom
            &&& f is Password || f is Username || f is Notes || f is Totp || f is Custom
            &&& f matches Field::Custom(n) ==> v == SpecFieldView::Custom(n@)
        },
{
}

} // verus!
