//! Which name a new instance gets, and whether it may have it.
use crate::text;
use vstd::prelude::*;

verus! {

/// The number by which the form stands for the Store.
pub const STORE_SOURCE: i32 = 2;

/// The number by which the form stands for a disk image.
pub const VHDX_SOURCE: i32 = 1;

/// The number by which the form stands for a root file system archive.
pub const ROOTFS_SOURCE: i32 = 0;

/// The characters that an instance name may have.
pub open spec fn name_char(c: char) -> bool {
    ||| 'a' <= c <= 'z'
    ||| 'A' <= c <= 'Z'
    ||| '0' <= c <= '9'
    ||| c == '-'
    ||| c == '_'
    ||| c == '.'
}

/// Whether a name is fit for an instance: its characters are allowed, and there
/// are at most 25 of them.
pub open spec fn fit_name(name: Seq<char>) -> bool {
    &&& name.len() <= 25
    &&& forall|i: int| 0 <= i < name.len() ==> name_char(#[trigger] name[i])
}

/// The name to use: the one that was typed; for the Store, else, the name of
/// the distribution; else the stem of the file's name, if there is one.
pub open spec fn chosen_name(
    source: i32,
    name: Seq<char>,
    friendly_name: Seq<char>,
    file_path: Seq<char>,
    file_stem: Option<Seq<char>>,
) -> Seq<char> {
    if name.len() > 0 {
        name
    } else if source == STORE_SOURCE {
        friendly_name
    } else if file_path.len() > 0 && file_stem is Some {
        file_stem->0
    } else {
        name
    }
}

/// The name to use, given the stem of the file's name.
pub fn choose_name(
    source: i32,
    name: &str,
    friendly_name: &str,
    file_path: &str,
    file_stem: Option<String>,
) -> (chosen: String)
    ensures
        chosen@ == chosen_name(source, name@, friendly_name@, file_path@, text::opt_view(file_stem)),
{
    if !name.is_empty() {
        return name.to_owned();
    }
    if source == STORE_SOURCE {
        return friendly_name.to_owned();
    }
    if !file_path.is_empty() {
        if let Some(stem) = file_stem {
            return stem;
        }
    }
    name.to_owned()
}

/// Whether a name is fit for an instance.
pub fn is_fit_name(name: &str) -> (fit: bool)
    ensures
        fit == fit_name(name@),
{
    let chars = text::chars_of(name);
    if chars.len() > 25 {
        return false;
    }
    let mut i: usize = 0;
    while i < chars.len()
        invariant
            chars@ == name@,
            i <= chars@.len(),
            forall|j: int| 0 <= j < i ==> name_char(#[trigger] name@[j]),
        decreases chars@.len() - i,
    {
        let c = chars[i];
        let allowed = ('a' <= c && c <= 'z') || ('A' <= c && c <= 'Z') || ('0' <= c && c <= '9') || c == '-'
            || c == '_' || c == '.';
        if !allowed {
            assert(!name_char(name@[i as int]));
            return false;
        }
        i = i + 1;
    }
    true
}

/// For a fit name it makes no difference whether its length is counted in
/// characters or in bytes.
pub proof fn law_fit_name_has_one_byte_per_character(name: Seq<char>)
    requires
        forall|i: int| 0 <= i < name.len() ==> name_char(#[trigger] name[i]),
    ensures
        vstd::utf8::encode_utf8(name).len() == name.len(),
{
    assert(vstd::utf8::is_ascii_chars(name));
    vstd::utf8::is_ascii_chars_encode_utf8(name);
}

/// Where the name comes from: a name that was typed is taken, whatever else is
/// given. Without one, the Store gives the name of the distribution, and every
/// other source the stem of its file, if it has a file and the file a stem;
/// otherwise there is no name.
pub proof fn law_where_the_name_comes_from(
    source: i32,
    typed: Seq<char>,
    friendly_name: Seq<char>,
    file_path: Seq<char>,
    stem: Seq<char>,
    file_stem: Option<Seq<char>>,
)
    ensures
        typed.len() > 0 ==> chosen_name(source, typed, friendly_name, file_path, file_stem) == typed,
        chosen_name(2, Seq::empty(), friendly_name, file_path, file_stem) == friendly_name,
        source != 2 && file_path.len() > 0 ==> chosen_name(
            source,
            Seq::empty(),
            friendly_name,
            file_path,
            Some(stem),
        ) == stem,
        source != 2 ==> chosen_name(source, Seq::empty(), friendly_name, file_path, None).len() == 0,
        source != 2 ==> chosen_name(source, Seq::empty(), friendly_name, Seq::empty(), file_stem).len() == 0,
{
}

/// Which names are fit: those of at most 25 characters, each of which is fit by
/// itself; and by themselves the ASCII letters and digits, `-`, `_` and `.` are.
pub proof fn law_fit_names(a: Seq<char>, b: Seq<char>, c: char)
    ensures
        fit_name(Seq::empty()),
        fit_name(a + b) <==> fit_name(a) && fit_name(b) && a.len() + b.len() <= 25,
        fit_name(seq![c]) <==> {
            ||| 48 <= c as int <= 57
            ||| 65 <= c as int <= 90
            ||| 97 <= c as int <= 122
            ||| c == '-'
            ||| c == '_'
            ||| c == '.'
        },
{
    assert(fit_name(seq![c]) ==> name_char(seq![c][0]));
    if fit_name(a + b) {
        assert forall|i: int| 0 <= i < a.len() implies name_char(#[trigger] a[i]) by {
            assert((a + b)[i] == a[i]);
        }
        assert forall|i: int| 0 <= i < b.len() implies name_char(#[trigger] b[i]) by {
            assert((a + b)[a.len() + i] == b[i]);
        }
    }
}

} // verus!
