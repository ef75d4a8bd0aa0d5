//! Text that the editor builds or inspects: decimal numbers, reflection
//! property paths, deserializer input, labels, and the component filter.
use vstd::prelude::*;

verus! {

/// The decimal digit character for `d`.
pub open spec fn digit_char(d: nat) -> char {
    ((48 + d) as u32) as char
}

/// The decimal notation of `n`, without sign or leading zeros.
pub open spec fn decimal(n: nat) -> Seq<char>
    decreases n,
{
    if n < 10 {
        seq![digit_char(n)]
    } else {
        decimal(n / 10).push(digit_char(n % 10))
    }
}

fn digit_str(d: usize) -> (s: &'static str)
    requires
        d < 10,
    ensures
        s@ == seq![digit_char(d as nat)],
{
    proof {
        reveal_strlit("0");
        reveal_strlit("1");
        reveal_strlit("2");
        reveal_strlit("3");
        reveal_strlit("4");
        reveal_strlit("5");
        reveal_strlit("6");
        reveal_strlit("7");
        reveal_strlit("8");
        reveal_strlit("9");
    }
    let s = if d == 0 {
        "0"
    } else if d == 1 {
        "1"
    } else if d == 2 {
        "2"
    } else if d == 3 {
        "3"
    } else if d == 4 {
        "4"
    } else if d == 5 {
        "5"
    } else if d == 6 {
        "6"
    } else if d == 7 {
        "7"
    } else if d == 8 {
        "8"
    } else {
        "9"
    };
    assert(s@ =~= seq![digit_char(d as nat)]);
    s
}

/// Appends the decimal notation of `n`.
pub fn push_decimal(out: &mut String, n: usize)
    ensures
        final(out)@ == old(out)@ + decimal(n as nat),
    decreases n,
{
    if n >= 10 {
        push_decimal(out, n / 10);
    }
    out.append(digit_str(n % 10));
    assert(old(out)@ + decimal(n as nat) =~= if n >= 10 {
        old(out)@ + decimal((n / 10) as nat) + seq![digit_char((n % 10) as nat)]
    } else {
        old(out)@ + seq![digit_char(n as nat)]
    });
}

/// The decimal notation of `n`, as `n.to_string()` writes it.
pub fn decimal_string(n: usize) -> (s: String)
    ensures
        s@ == decimal(n as nat),
{
    let mut s = String::new();
    push_decimal(&mut s, n);
    assert(s@ =~= decimal(n as nat));
    s
}

/// The characters of `s`.
pub fn chars_of(s: &str) -> (v: Vec<char>)
    ensures
        v@ == s@,
{
    let n = s.unicode_len();
    let mut v: Vec<char> = Vec::new();
    let mut i: usize = 0;
    while i < n
        invariant
            n == s@.len(),
            i <= n,
            v@ == s@.take(i as int),
        decreases n - i,
    {
        v.push(s.get_char(i));
        assert(v@ =~= s@.take(i + 1));
        i = i + 1;
    }
    assert(s@.take(n as int) =~= s@);
    v
}

/// Whether two strings hold the same characters.
pub fn same_text(a: &str, b: &str) -> (eq: bool)
    ensures
        eq == (a@ == b@),
{
    let x = chars_of(a);
    let y = chars_of(b);
    if x.len() != y.len() {
        return false;
    }
    let mut i: usize = 0;
    while i < x.len()
        invariant
            x@ == a@,
            y@ == b@,
            x@.len() == y@.len(),
            i <= x@.len(),
            forall|j: int| 0 <= j < i ==> x@[j] == y@[j],
        decreases x@.len() - i,
    {
        if x[i] != y[i] {
            return false;
        }
        i = i + 1;
    }
    assert(a@ =~= b@);
    true
}

/// Whether `needle` occurs in `hay` starting at `i`.
pub open spec fn occurs_at(hay: Seq<char>, needle: Seq<char>, i: int) -> bool {
    0 <= i && i + needle.len() <= hay.len() && hay.subrange(i, i + needle.len()) == needle
}

/// Whether `needle` occurs somewhere in `hay`; the empty text occurs everywhere.
pub open spec fn contains_text(hay: Seq<char>, needle: Seq<char>) -> bool {
    exists|i: int| occurs_at(hay, needle, i)
}

/// Whether `name` contains `filter`, as the component browser's filter
/// decides which entries stay visible.
pub fn matches_filter(name: &str, filter: &str) -> (shown: bool)
    ensures
        shown == contains_text(name@, filter@),
{
    let hay = chars_of(name);
    let needle = chars_of(filter);
    if needle.len() > hay.len() {
        assert forall|i: int| !occurs_at(name@, filter@, i) by {}
        return false;
    }
    let hl = hay.len();
    let last = hl - needle.len();
    let mut i: usize = 0;
    loop
        invariant
            hl == hay@.len(),
            hay@ == name@,
            needle@ == filter@,
            last == hay@.len() - needle@.len(),
            i <= last,
            forall|k: int| 0 <= k < i ==> !occurs_at(name@, filter@, k),
        decreases last + 1 - i,
    {
        let mut j: usize = 0;
        let mut all = true;
        while j < needle.len()
            invariant
                hay@ == name@,
                needle@ == filter@,
                hl == hay@.len(),
                i <= last,
                last == hay@.len() - needle@.len(),
                j <= needle@.len(),
                all == forall|m: int| 0 <= m < j ==> hay@[i + m] == needle@[m],
            decreases needle@.len() - j,
        {
            if hay[i + j] != needle[j] {
                all = false;
            }
            j = j + 1;
        }
        if all {
            assert(hay@.subrange(i as int, i + needle@.len()) =~= needle@);
            assert(occurs_at(name@, filter@, i as int));
            return true;
        }
        proof {
            if occurs_at(name@, filter@, i as int) {
                assert forall|m: int| 0 <= m < needle@.len() implies hay@[i + m] == needle@[m] by {
                    assert(hay@.subrange(i as int, i + needle@.len())[m] == needle@[m]);
                }
            }
        }
        if i == last {
            assert forall|k: int| !occurs_at(name@, filter@, k) by {
                if occurs_at(name@, filter@, k) {
                    assert(k <= last);
                }
            }
            return false;
        }
        i = i + 1;
    }
}

/// The property path of field `field` below `parent`: `parent.field`, or
/// just `field` at the top of a component.
pub fn struct_field_path(parent: &str, field: &str) -> (path: String)
    ensures
        path@ == if parent@.len() == 0 {
            field@
        } else {
            parent@ + seq!['.'] + field@
        },
{
    proof {
        reveal_strlit(".");
    }
    if parent.is_empty() {
        String::from_str(field)
    } else {
        let mut p = String::from_str(parent);
        p.append(".");
        p.append(field);
        p
    }
}

/// The property path of the tuple field with index `index` below `parent`:
/// `parent.index`, except below the selected-entity root, where the index
/// stands alone. (A component's own path is empty, so its top-level tuple
/// fields get `.index`.)
pub fn tuple_field_path(parent: &str, index: usize) -> (path: String)
    ensures
        path@ == if parent@ == "SelectedEntityUiRoot"@ {
            decimal(index as nat)
        } else {
            parent@ + seq!['.'] + decimal(index as nat)
        },
{
    proof {
        reveal_strlit(".");
    }
    if same_text(parent, "SelectedEntityUiRoot") {
        decimal_string(index)
    } else {
        let mut p = String::from_str(parent);
        p.append(".");
        push_decimal(&mut p, index);
        p
    }
}

/// The property path of field `field` of an enum variant at `path`.
pub fn variant_field_path(path: &str, field: &str) -> (p: String)
    ensures
        p@ == path@ + seq!['.'] + field@,
{
    proof {
        reveal_strlit(".");
    }
    let mut p = String::from_str(path);
    p.append(".");
    p.append(field);
    p
}

/// The property path of item `index` of the list at `list_path`.
pub fn list_item_path(list_path: &str, index: usize) -> (p: String)
    ensures
        p@ == list_path@ + seq!['['] + decimal(index as nat) + seq![']'],
{
    proof {
        reveal_strlit("[");
        reveal_strlit("]");
    }
    let mut p = String::from_str(list_path);
    p.append("[");
    push_decimal(&mut p, index);
    p.append("]");
    p
}

/// The text handed to the reflection deserializer for a value typed into a
/// field: a map from the value's full type path to the typed text.
pub fn deserializer_hint(type_path: &str, text: &str) -> (hint: String)
    ensures
        hint@ == seq!['{', '"'] + type_path@ + seq!['"', ':'] + text@ + seq!['}'],
{
    proof {
        reveal_strlit("{\"");
        reveal_strlit("\":");
        reveal_strlit("}");
    }
    let mut h = String::from_str("{\"");
    h.append(type_path);
    h.append("\":");
    h.append(text);
    h.append("}");
    h
}

/// The label of an edited entity: `name : Entity(label)` when it has a name,
/// `Entity(label)` otherwise, `label` being how the entity prints itself.
pub fn name_plate(name: Option<&str>, entity_label: &str) -> (plate: String)
    ensures
        plate@ == match name {
            Some(n) => n@ + " : "@ + "Entity("@ + entity_label@ + ")"@,
            None => "Entity("@ + entity_label@ + ")"@,
        },
{
    let mut p = match name {
        Some(n) => {
            let mut p = String::from_str(n);
            p.append(" : ");
            p
        },
        None => String::new(),
    };
    p.append("Entity(");
    p.append(entity_label);
    p.append(")");
    p
}

/// The label of a component in the component browser, warning when the
/// type has no default value to start from.
pub fn component_entry_label(short_path: &str, has_default: bool) -> (label: String)
    ensures
        label@ == short_path@ + " | "@ + if has_default {
            ""@
        } else {
            "no ReflectDefault impl"@
        },
{
    let mut l = String::from_str(short_path);
    l.append(" | ");
    if !has_default {
        l.append("no ReflectDefault impl");
    } else {
        l.append("");
    }
    l
}

/// An empty filter hides nothing.
pub proof fn lemma_empty_filter_shows_all(name: Seq<char>)
    ensures
        contains_text(name, Seq::empty()),
{
    assert(name.subrange(0, 0) =~= Seq::<char>::empty());
    assert(occurs_at(name, Seq::empty(), 0));
}

} // verus!
