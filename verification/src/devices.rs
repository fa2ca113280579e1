//! Choosing the virtual audio cable to play into, by device name.

use vstd::prelude::*;

verus! {

/// What `str::to_lowercase` makes of a character sequence (Unicode lowercase
/// mapping, which depends on the text alone).
pub uninterp spec fn lowercase_of(s: Seq<char>) -> Seq<char>;

/// `str::to_lowercase`: the Unicode lowercase form of `s`.
#[verifier::external_body]
fn to_lowercase(s: &str) -> (r: String)
    ensures
        r@ == lowercase_of(s@),
{
    s.to_lowercase()
}

/// Whether `needle` occurs in `hay` as a contiguous run.
pub open spec fn seq_contains(hay: Seq<char>, needle: Seq<char>) -> bool {
    exists|i: int|
        0 <= i <= hay.len() - needle.len() && #[trigger] hay.subrange(i, i + needle.len()) == needle
}

/// The characters of `s`.
pub(crate) fn chars_of(s: &str) -> (v: Vec<char>)
    ensures
        v@ == s@,
{
    let n = s.unicode_len();
    let mut v: Vec<char> = Vec::new();
    let mut i: usize = 0;
    while i < n
        invariant
            i <= n == s@.len(),
            v@ == s@.take(i as int),
        decreases n - i,
    {
        v.push(s.get_char(i));
        i = i + 1;
        assert(v@ =~= s@.take(i as int));
    }
    assert(s@.take(n as int) =~= s@);
    v
}

/// Whether `needle` occurs in `hay` at position `at`.
fn matches_at(hay: &Vec<char>, needle: &Vec<char>, at: usize) -> (b: bool)
    requires
        at + needle@.len() <= hay@.len(),
    ensures
        b == (hay@.subrange(at as int, at + needle@.len()) == needle@),
{
    let hay_len = hay.len();
    let mut k: usize = 0;
    while k < needle.len()
        invariant
            hay_len == hay@.len(),
            at + needle@.len() <= hay@.len(),
            k <= needle@.len(),
            forall|j: int| 0 <= j < k ==> hay@[at + j] == needle@[j],
        decreases needle@.len() - k,
    {
        if hay[at + k] != needle[k] {
            assert(hay@.subrange(at as int, at + needle@.len())[k as int] != needle@[k as int]);
            return false;
        }
        k = k + 1;
    }
    assert(hay@.subrange(at as int, at + needle@.len()) =~= needle@);
    true
}

/// Whether `needle` occurs in `hay`, as `str::contains` with a string pattern.
pub fn contains_str(hay: &str, needle: &str) -> (b: bool)
    ensures
        b == seq_contains(hay@, needle@),
{
    let h = chars_of(hay);
    let n = chars_of(needle);
    if n.len() == 0 {
        assert(hay@.subrange(0int, 0int + needle@.len()) =~= needle@);
        return true;
    }
    if n.len() > h.len() {
        return false;
    }
    let starts = h.len() - n.len() + 1;
    let mut i: usize = 0;
    while i < starts
        invariant
            starts == h@.len() - n@.len() + 1,
            h@ == hay@,
            n@ == needle@,
            forall|j: int| 0 <= j < i ==> #[trigger] h@.subrange(j, j + n@.len()) != n@,
        decreases starts - i,
    {
        if matches_at(&h, &n, i) {
            return true;
        }
        i = i + 1;
    }
    assert forall|j: int| 0 <= j <= hay@.len() - needle@.len() implies #[trigger] hay@.subrange(
        j,
        j + needle@.len(),
    ) != needle@ by {
        assert(h@.subrange(j, j + n@.len()) != n@);
    }
    false
}

/// A VB-Cable playback device: its lowercase name contains `cable input` or
/// `vb-cable`.
pub open spec fn is_vb_cable(name: Seq<char>) -> bool {
    seq_contains(lowercase_of(name), "cable input"@) || seq_contains(lowercase_of(name), "vb-cable"@)
}

/// A VoiceMeeter playback device: its lowercase name contains
/// `voicemeeter input` or `voice meeter input`.
pub open spec fn is_voicemeeter(name: Seq<char>) -> bool {
    seq_contains(lowercase_of(name), "voicemeeter input"@) || seq_contains(
        lowercase_of(name),
        "voice meeter input"@,
    )
}

/// A device whose lowercase name has neither `voicemeeter input` nor
/// `voice meeter input` in it (such as a VoiceMeeter Aux or VAIO3 input, or a
/// VoiceMeeter output) is not a VoiceMeeter playback device.
pub proof fn lemma_other_voicemeeter_buses_do_not_count(name: Seq<char>)
    requires
        !seq_contains(lowercase_of(name), "voicemeeter input"@),
        !seq_contains(lowercase_of(name), "voice meeter input"@),
    ensures
        !is_voicemeeter(name),
{
}

/// A device whose lowercase name has `voicemeeter input` or
/// `voice meeter input` in it is a VoiceMeeter playback device.
pub proof fn lemma_voicemeeter_inputs_count(name: Seq<char>)
    requires
        seq_contains(lowercase_of(name), "voicemeeter input"@) || seq_contains(
            lowercase_of(name),
            "voice meeter input"@,
        ),
    ensures
        is_voicemeeter(name),
{
}

/// The output device to play into, from the names of the output devices in
/// the order the host lists them: the first VB-Cable device; failing that, the
/// last VoiceMeeter device; failing that, none.
pub fn select_virtual_cable(names: &Vec<String>) -> (choice: Option<String>)
    ensures
        (exists|i: int| 0 <= i < names@.len() && #[trigger] is_vb_cable(names@[i]@)) ==> (
        choice matches Some(c) && exists|i: int|
            0 <= i < names@.len() && #[trigger] is_vb_cable(names@[i]@) && c@ == names@[i]@ && (
            forall|j: int| 0 <= j < i ==> !#[trigger] is_vb_cable(names@[j]@))),
        (forall|i: int| 0 <= i < names@.len() ==> !#[trigger] is_vb_cable(names@[i]@)) && (exists|
            i: int,
        | 0 <= i < names@.len() && #[trigger] is_voicemeeter(names@[i]@)) ==> (choice matches Some(
            c,
        ) && exists|i: int|
            0 <= i < names@.len() && #[trigger] is_voicemeeter(names@[i]@) && c@ == names@[i]@ && (
            forall|j: int| i < j < names@.len() ==> !#[trigger] is_voicemeeter(names@[j]@))),
        (forall|i: int|
            0 <= i < names@.len() ==> !#[trigger] is_vb_cable(names@[i]@) && !is_voicemeeter(
                names@[i]@,
            )) ==> choice is None,
        choice matches Some(c) ==> exists|i: int|
            0 <= i < names@.len() && c@ == #[trigger] names@[i]@ && ({
                let lower = lowercase_of(names@[i]@);
                ||| seq_contains(lower, "cable input"@)
                ||| seq_contains(lower, "vb-cable"@)
                ||| seq_contains(lower, "voicemeeter input"@)
                ||| seq_contains(lower, "voice meeter input"@)
            }),
        (forall|i: int| 0 <= i < names@.len() ==> !#[trigger] is_vb_cable(names@[i]@)) ==> (
        choice matches Some(c) ==> ({
            let lower = lowercase_of(c@);
            seq_contains(lower, "voicemeeter input"@) || seq_contains(lower, "voice meeter input"@)
        })),
{
    let mut voicemeeter: Option<String> = None;
    let ghost mut vm_index: int = -1;
    let mut i: usize = 0;
    while i < names.len()
        invariant
            i <= names@.len(),
            forall|j: int| 0 <= j < i ==> !#[trigger] is_vb_cable(names@[j]@),
            -1 <= vm_index < i,
            vm_index == -1 <==> voicemeeter is None,
            vm_index >= 0 ==> (voicemeeter matches Some(v) && v@ == names@[vm_index]@
                && is_voicemeeter(names@[vm_index]@)),
            forall|j: int| vm_index < j < i ==> !#[trigger] is_voicemeeter(names@[j]@),
        decreases names@.len() - i,
    {
        let name = &names[i];
        let lower = to_lowercase(name.as_str());
        assert(lower@ == lowercase_of(names@[i as int]@));
        let cable = contains_str(lower.as_str(), "cable input") || contains_str(lower.as_str(), "vb-cable");
        assert(cable == is_vb_cable(names@[i as int]@));
        if cable {
            let c = name.clone();
            assert(is_vb_cable(names@[i as int]@) && c@ == names@[i as int]@);
            return Some(c);
        }
        let vm = contains_str(lower.as_str(), "voicemeeter input") || contains_str(
            lower.as_str(),
            "voice meeter input",
        );
        assert(vm == is_voicemeeter(names@[i as int]@));
        if vm {
            voicemeeter = Some(name.clone());
            proof {
                vm_index = i as int;
            }
        }
        i = i + 1;
    }
    proof {
        if vm_index >= 0 {
            assert(is_voicemeeter(names@[vm_index]@));
            assert(!is_vb_cable(names@[vm_index]@));
        }
    }
    voicemeeter
}

} // verus!
