//! The device nodes that the VA-API backend opens.
use vstd::prelude::*;
use vstd::string::StringExecFns;
use vstd::utf8::encode_utf8;

verus! {

/// The directory that holds the device nodes.
pub const DEV_PATH: &'static str = "/dev/dri";

/// The directory that holds the device nodes under stable names.
pub const DEV_BY_PATH_PATH: &'static str = "/dev/dri/by-path";

/// The bytes of the word "render".
pub open spec fn render_word() -> Seq<u8> {
    seq![0x72u8, 0x65u8, 0x6eu8, 0x64u8, 0x65u8, 0x72u8]
}

/// Whether `text` ends with `word`.
pub open spec fn has_suffix(text: Seq<u8>, word: Seq<u8>) -> bool {
    text.len() >= word.len() && text.subrange(text.len() - word.len(), text.len() as int) == word
}

/// Whether `text` begins with `word`.
pub open spec fn has_prefix(text: Seq<u8>, word: Seq<u8>) -> bool {
    text.len() >= word.len() && text.subrange(0, word.len() as int) == word
}

/// Whether an entry of the directory of stable names is a render node: its
/// name ends with "render".
pub open spec fn is_by_path_node(name: Seq<char>) -> bool {
    has_suffix(encode_utf8(name), render_word())
}

/// Whether an entry of the device directory is a render node: its name
/// begins with "render".
pub open spec fn is_flat_node(name: Seq<char>) -> bool {
    has_prefix(encode_utf8(name), render_word())
}

/// Tells whether a name ends with "render".
pub fn ends_with_render(name: &str) -> (r: bool)
    ensures
        r == is_by_path_node(name@),
{
    let text = name.as_bytes();
    let word: [u8; 6] = [0x72, 0x65, 0x6e, 0x64, 0x65, 0x72];
    assert(word@ =~= render_word());
    assert(text@ == encode_utf8(name@));
    if text.len() < 6 {
        return false;
    }
    let start = text.len() - 6;
    let mut k: usize = 0;
    while k < 6
        invariant
            k <= 6,
            start + 6 == text@.len(),
            text@.len() <= usize::MAX,
            text@ == encode_utf8(name@),
            word@ == render_word(),
            forall|j: int| 0 <= j < k ==> text@[start + j] == render_word()[j],
        decreases 6 - k,
    {
        if text[start + k] != word[k] {
            assert(text@.subrange(start as int, text@.len() as int)[k as int] != render_word()[k as int]);
            return false;
        }
        k = k + 1;
    }
    assert(text@.subrange(start as int, text@.len() as int) =~= render_word());
    true
}

/// Tells whether a name begins with "render".
pub fn starts_with_render(name: &str) -> (r: bool)
    ensures
        r == is_flat_node(name@),
{
    let text = name.as_bytes();
    let word: [u8; 6] = [0x72, 0x65, 0x6e, 0x64, 0x65, 0x72];
    assert(word@ =~= render_word());
    assert(text@ == encode_utf8(name@));
    if text.len() < 6 {
        return false;
    }
    let mut k: usize = 0;
    while k < 6
        invariant
            k <= 6,
            6 <= text@.len(),
            text@ == encode_utf8(name@),
            word@ == render_word(),
            forall|j: int| 0 <= j < k ==> text@[j] == render_word()[j],
        decreases 6 - k,
    {
        if text[k] != word[k] {
            assert(text@.subrange(0, 6)[k as int] != render_word()[k as int]);
            return false;
        }
        k = k + 1;
    }
    assert(text@.subrange(0, 6) =~= render_word());
    true
}

/// The path of an entry of a directory.
pub open spec fn entry_path(dir: Seq<char>, name: Seq<char>) -> Seq<char> {
    dir + "/"@ + name
}

/// The paths of the render nodes among the entries of the directory of
/// stable names, in the order of the entries.
pub open spec fn by_path_nodes(entries: Seq<String>) -> Seq<Seq<char>>
    decreases entries.len(),
{
    if entries.len() == 0 {
        Seq::empty()
    } else {
        let before = by_path_nodes(entries.drop_last());
        if is_by_path_node(entries.last()@) {
            before.push(entry_path(DEV_BY_PATH_PATH@, entries.last()@))
        } else {
            before
        }
    }
}

/// The paths of the render nodes among the entries of the device
/// directory, in the order of the entries.
pub open spec fn flat_nodes(entries: Seq<String>) -> Seq<Seq<char>>
    decreases entries.len(),
{
    if entries.len() == 0 {
        Seq::empty()
    } else {
        let before = flat_nodes(entries.drop_last());
        if is_flat_node(entries.last()@) {
            before.push(entry_path(DEV_PATH@, entries.last()@))
        } else {
            before
        }
    }
}

/// The texts of a list of strings.
pub open spec fn texts(list: Seq<String>) -> Seq<Seq<char>> {
    Seq::new(list.len(), |i: int| list[i]@)
}

/// The path of an entry of a directory.
fn join(dir: &str, name: &str) -> (r: String)
    ensures
        r@ == entry_path(dir@, name@),
{
    let mut path = String::from_str(dir);
    path.append("/");
    path.append(name);
    path
}

/// The render nodes among the entries of the directory of stable names.
pub fn select_by_path(entries: &Vec<String>) -> (r: Vec<String>)
    ensures
        texts(r@) == by_path_nodes(entries@),
{
    let mut r: Vec<String> = Vec::new();
    let mut i: usize = 0;
    assert(texts(r@) =~= by_path_nodes(entries@.take(0)));
    while i < entries.len()
        invariant
            i <= entries@.len(),
            texts(r@) == by_path_nodes(entries@.take(i as int)),
        decreases entries@.len() - i,
    {
        let ghost before = texts(r@);
        proof {
            let next = entries@.take(i + 1);
            assert(next.drop_last() =~= entries@.take(i as int));
            assert(next.last() == entries@[i as int]);
        }
        if ends_with_render(entries[i].as_str()) {
            r.push(join(DEV_BY_PATH_PATH, entries[i].as_str()));
            assert(texts(r@) =~= before.push(entry_path(DEV_BY_PATH_PATH@, entries@[i as int]@)));
        }
        i = i + 1;
    }
    assert(entries@.take(entries@.len() as int) =~= entries@);
    r
}

/// The render nodes among the entries of the device directory.
pub fn select_flat(entries: &Vec<String>) -> (r: Vec<String>)
    ensures
        texts(r@) == flat_nodes(entries@),
{
    let mut r: Vec<String> = Vec::new();
    let mut i: usize = 0;
    assert(texts(r@) =~= flat_nodes(entries@.take(0)));
    while i < entries.len()
        invariant
            i <= entries@.len(),
            texts(r@) == flat_nodes(entries@.take(i as int)),
        decreases entries@.len() - i,
    {
        let ghost before = texts(r@);
        proof {
            let next = entries@.take(i + 1);
            assert(next.drop_last() =~= entries@.take(i as int));
            assert(next.last() == entries@[i as int]);
        }
        if starts_with_render(entries[i].as_str()) {
            r.push(join(DEV_PATH, entries[i].as_str()));
            assert(texts(r@) =~= before.push(entry_path(DEV_PATH@, entries@[i as int]@)));
        }
        i = i + 1;
    }
    assert(entries@.take(entries@.len() as int) =~= entries@);
    r
}

/// The device nodes to open, given the entries of the directory of stable
/// names and those of the device directory, each `None` where the
/// directory does not exist: the render nodes of the first where it has
/// any, else those of the second, else none.
pub open spec fn render_nodes(by_path: Option<Vec<String>>, flat: Option<Vec<String>>) -> Seq<
    Seq<char>,
> {
    let stable = match by_path {
        Some(entries) => by_path_nodes(entries@),
        None => Seq::empty(),
    };
    if stable.len() > 0 {
        stable
    } else {
        match flat {
            Some(entries) => flat_nodes(entries@),
            None => Seq::empty(),
        }
    }
}

/// The device nodes to open. `by_path` holds the names of the entries of
/// the directory of stable names and `flat` those of the device directory;
/// each is `None` where the directory does not exist. Stable names are
/// preferred; the device directory is used where they give nothing. That
/// neither directory exists is no failure: there is then nothing to open.
pub fn enumerate_devices(by_path: &Option<Vec<String>>, flat: &Option<Vec<String>>) -> (r: Vec<
    String,
>)
    ensures
        texts(r@) == render_nodes(*by_path, *flat),
{
    match by_path {
        Some(entries) => {
            let stable = select_by_path(entries);
            if stable.len() > 0 {
                return stable;
            }
        },
        None => {},
    }
    match flat {
        Some(entries) => select_flat(entries),
        None => {
            let none: Vec<String> = Vec::new();
            assert(texts(none@) =~= Seq::<Seq<char>>::empty());
            none
        },
    }
}

} // verus!
