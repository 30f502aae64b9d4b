//! What the installed Bluetooth daemon's version asks for, and content protection.

use vstd::prelude::*;

use crate::text;

verus! {

/// Version of the Bluetooth daemon.
#[derive(Debug, Clone, Copy, PartialEq, Eq, PartialOrd, Ord, Structural)]
pub struct BlueZVersion {
    pub major: u32,
    pub minor: u32,
}

impl BlueZVersion {
    /// The version as text.
    pub fn text(&self) -> (s: String)
        ensures
            s@ == text::decimal(self.major as nat) + "."@ + text::decimal(self.minor as nat),
    {
        let mut s: String = String::new();
        text::push_decimal(&mut s, self.major as u64);
        s.append(".");
        text::push_decimal(&mut s, self.minor as u64);
        assert(s@ =~= text::decimal(self.major as nat) + "."@ + text::decimal(self.minor as nat));
        s
    }
}

/// Known regressions of a version, and what to do about them.
#[derive(Debug, Clone, Copy, PartialEq, Eq, Structural)]
pub struct CompatInfo {
    pub version: Option<BlueZVersion>,
    /// A2DP does not connect by itself on startup.
    pub needs_manual_a2dp_connect: bool,
    /// Largest SBC bitpool that is handled correctly.
    pub max_safe_bitpool: u8,
    /// Experimental features are available.
    pub has_experimental: bool,
}

/// What holds when the version is not known.
pub open spec fn conservative() -> CompatInfo {
    CompatInfo {
        version: None,
        needs_manual_a2dp_connect: false,
        max_safe_bitpool: 53,
        has_experimental: false,
    }
}

impl Default for CompatInfo {
    fn default() -> (c: CompatInfo)
        ensures
            c == conservative(),
    {
        CompatInfo {
            version: None,
            needs_manual_a2dp_connect: false,
            max_safe_bitpool: 53,
            has_experimental: false,
        }
    }
}

/// A version is this one or newer.
pub open spec fn at_least(ver: BlueZVersion, major: u32, minor: u32) -> bool {
    ver.major > major || (ver.major == major && ver.minor >= minor)
}

/// `info` with the workarounds of a version added.
pub open spec fn with_workarounds(info: CompatInfo, ver: BlueZVersion) -> CompatInfo {
    CompatInfo {
        version: info.version,
        needs_manual_a2dp_connect: info.needs_manual_a2dp_connect || (ver.major == 5 && 83
            <= ver.minor <= 84),
        max_safe_bitpool: if at_least(ver, 5, 64) {
            76
        } else {
            info.max_safe_bitpool
        },
        has_experimental: info.has_experimental || at_least(ver, 5, 66),
    }
}

/// What a version asks for.
pub open spec fn compat_of(version: Option<BlueZVersion>) -> CompatInfo {
    match version {
        Some(ver) => with_workarounds(
            CompatInfo { version: Some(ver), ..conservative() },
            ver,
        ),
        None => conservative(),
    }
}

/// The largest safe bitpool is standard high quality, or that of high-quality SBC for the
/// version that brought support for it and newer ones.
pub proof fn law_bitpool_cap(version: Option<BlueZVersion>)
    ensures
        compat_of(version).max_safe_bitpool == (if version is Some && at_least(
            version->0,
            5,
            64,
        ) {
            76u8
        } else {
            53u8
        }),
        compat_of(version).version == version,
{
}

/// A newer version never has a smaller bitpool or fewer features.
pub proof fn law_newer_versions_keep_features(older: BlueZVersion, newer: BlueZVersion)
    requires
        at_least(newer, older.major, older.minor),
    ensures
        compat_of(Some(older)).max_safe_bitpool <= compat_of(Some(newer)).max_safe_bitpool,
        compat_of(Some(older)).has_experimental ==> compat_of(Some(newer)).has_experimental,
{
}

/// Whether a version is this one or newer.
fn is_at_least(ver: BlueZVersion, major: u32, minor: u32) -> (b: bool)
    ensures
        b == at_least(ver, major, minor),
{
    ver.major > major || (ver.major == major && ver.minor >= minor)
}

/// Adds the workarounds of a version.
pub fn apply_version_workarounds(info: &mut CompatInfo, ver: BlueZVersion)
    ensures
        *final(info) == with_workarounds(*old(info), ver),
{
    if ver.major == 5 && (ver.minor == 83 || ver.minor == 84) {
        info.needs_manual_a2dp_connect = true;
    }
    if is_at_least(ver, 5, 64) {
        info.max_safe_bitpool = 76;
    }
    if is_at_least(ver, 5, 66) {
        info.has_experimental = true;
    }
}

/// The position of the first `c` in `s`, or the length of `s`.
pub open spec fn index_or_len(s: Seq<char>, c: char) -> int
    decreases s.len(),
{
    if s.len() == 0 || s[0] == c {
        0
    } else {
        1 + index_or_len(s.skip(1), c)
    }
}

/// The version that a dotted text spells: the numbers before and behind its first dot.
pub open spec fn dotted_version(s: Seq<char>) -> Option<BlueZVersion> {
    let dot = index_or_len(s, '.');
    if dot >= s.len() {
        None
    } else {
        let rest = s.skip(dot + 1);
        match (text::u32_of(s.take(dot)), text::u32_of(rest.take(index_or_len(rest, '.')))) {
            (Some(major), Some(minor)) => Some(BlueZVersion { major, minor }),
            _ => None,
        }
    }
}

/// The version that the daemon's answer spells, with or without the daemon's name.
pub open spec fn version_of(s: Seq<char>) -> Option<BlueZVersion> {
    dotted_version(text::without_prefix(text::trimmed(s), "bluetoothd - "@))
}

/// The first answer that spells a version.
pub open spec fn first_version(answers: Seq<Option<Seq<char>>>) -> Option<BlueZVersion>
    decreases answers.len(),
{
    if answers.len() == 0 {
        None
    } else {
        match answers[0] {
            Some(s) => if version_of(s) is Some {
                version_of(s)
            } else {
                first_version(answers.skip(1))
            },
            None => first_version(answers.skip(1)),
        }
    }
}

/// Finds the first `c`.
fn index_of(v: &[char], c: char) -> (i: usize)
    ensures
        i == index_or_len(v@, c),
        i <= v@.len(),
{
    let mut i: usize = 0;
    assert(v@.skip(0) =~= v@);
    while i < v.len() && v[i] != c
        invariant
            i <= v@.len(),
            index_or_len(v@, c) == i + index_or_len(v@.skip(i as int), c),
        decreases v.len() - i,
    {
        assert(v@.skip(i as int).skip(1) =~= v@.skip(i + 1));
        i += 1;
    }
    i
}

/// Reads the version out of the daemon's answer.
pub fn parse_version(s: &str) -> (r: Option<BlueZVersion>)
    ensures
        r == version_of(s@),
{
    let all = text::chars_of(s);
    let name = text::chars_of("bluetoothd - ");
    proof {
        reveal_strlit("bluetoothd - ");
    }
    let v = text::strip_prefix(text::trim(all.as_slice()), name.as_slice());
    let dot: usize = index_of(v, '.');
    if dot >= v.len() {
        return None;
    }
    let head = &v[0..dot];
    let rest = &v[dot + 1..v.len()];
    let end: usize = index_of(rest, '.');
    let tail = &rest[0..end];
    assert(head@ =~= v@.take(dot as int));
    assert(rest@ =~= v@.skip(dot + 1));
    assert(tail@ =~= rest@.take(end as int));
    match (text::parse_u32(head), text::parse_u32(tail)) {
        (Some(major), Some(minor)) => Some(BlueZVersion { major, minor }),
        _ => None,
    }
}

/// What each answer says.
pub open spec fn answer_texts(answers: Seq<Option<String>>) -> Seq<Option<Seq<char>>> {
    answers.map_values(
        |a: Option<String>|
            match a {
                Some(s) => Some(s@),
                None => None,
            },
    )
}

/// Takes answers on the version, in the order in which they were asked for, `None` for one
/// that did not come. The first that can be read counts; without one the most conservative
/// assumptions are made.
pub fn detect_from_texts(answers: &[Option<String>]) -> (info: CompatInfo)
    ensures
        info == compat_of(first_version(answer_texts(answers@))),
{
    let mut info: CompatInfo = CompatInfo::default();
    let ghost texts = answer_texts(answers@);
    let mut i: usize = 0;
    assert(texts.skip(0) =~= texts);
    while i < answers.len()
        invariant
            i <= answers@.len(),
            texts == answer_texts(answers@),
            info == conservative(),
            first_version(texts) == first_version(texts.skip(i as int)),
        decreases answers.len() - i,
    {
        assert(texts.skip(i as int).skip(1) =~= texts.skip(i + 1));
        assert(texts.skip(i as int)[0] == texts[i as int]);
        if let Some(s) = &answers[i] {
            if let Some(ver) = parse_version(s.as_str()) {
                info.version = Some(ver);
                apply_version_workarounds(&mut info, ver);
                return info;
            }
        }
        i += 1;
    }
    info
}

/// What the output of each program says.
pub open spec fn output_texts(outputs: Seq<Option<Vec<u8>>>) -> Seq<Option<Seq<char>>> {
    outputs.map_values(
        |a: Option<Vec<u8>>|
            match a {
                Some(v) => Some(text::lossy_text(v@)),
                None => None,
            },
    )
}

/// Takes what the daemon's programs printed when asked for their version, in the order in
/// which they were asked, `None` for one that could not be run or failed.
pub fn detect_bluez_version(outputs: &[Option<Vec<u8>>]) -> (info: CompatInfo)
    ensures
        info == compat_of(first_version(output_texts(outputs@))),
{
    let mut answers: Vec<Option<String>> = Vec::new();
    let mut i: usize = 0;
    while i < outputs.len()
        invariant
            i <= outputs@.len(),
            answer_texts(answers@) == output_texts(outputs@.take(i as int)),
            answers@.len() == i,
        decreases outputs.len() - i,
    {
        let ghost before = answers@;
        match &outputs[i] {
            Some(v) => answers.push(Some(text::from_bytes(v.as_slice()))),
            None => answers.push(None),
        }
        assert(answer_texts(answers@) =~= answer_texts(before).push(answer_texts(answers@).last()));
        assert(output_texts(outputs@.take(i + 1)) =~= output_texts(outputs@.take(i as int)).push(
            output_texts(outputs@)[i as int],
        ));
        i += 1;
    }
    assert(outputs@.take(i as int) =~= outputs@);
    detect_from_texts(answers.as_slice())
}

/// A version that is written as text is read back.
pub proof fn law_version_round_trip(ver: BlueZVersion)
    ensures
        dotted_version(
            text::decimal(ver.major as nat) + "."@ + text::decimal(ver.minor as nat),
        ) == Some(ver),
{
    reveal_strlit(".");
    let head = text::decimal(ver.major as nat);
    let tail = text::decimal(ver.minor as nat);
    let s = head + "."@ + tail;
    text::law_decimal_round_trip(ver.major);
    text::law_decimal_round_trip(ver.minor);
    text::lemma_decimal_digits(ver.major as nat);
    text::lemma_decimal_digits(ver.minor as nat);
    lemma_index_of_dot(head, "."@ + tail);
    assert(s =~= head + ("."@ + tail));
    assert(s.take(head.len() as int) =~= head);
    assert(s.skip(head.len() as int + 1) =~= tail);
    lemma_index_of_dot(tail, Seq::<char>::empty());
    assert(tail + Seq::<char>::empty() =~= tail);
    assert(tail.take(tail.len() as int) =~= tail);
}

proof fn lemma_index_of_dot(digits: Seq<char>, rest: Seq<char>)
    requires
        text::all_digits(digits),
        rest.len() == 0 || rest[0] == '.',
    ensures
        index_or_len(digits + rest, '.') == digits.len(),
    decreases digits.len(),
{
    if digits.len() > 0 {
        assert(text::is_digit(digits[0]));
        assert((digits + rest).skip(1) =~= digits.skip(1) + rest);
        lemma_index_of_dot(digits.skip(1), rest);
    } else {
        assert(digits + rest =~= rest);
    }
}

// ---------------------------------------------------------------------------------
// Content protection
// ---------------------------------------------------------------------------------

/// SCMS-T content protection. An endpoint is first registered without it, and with it only
/// when that is rejected.
#[derive(Debug, Clone, Copy, PartialEq, Eq, Structural)]
pub struct ScmsTConfig {
    /// The capability is part of the registration.
    pub enabled: bool,
    /// Type of content protection.
    pub cp_type: u16,
    /// Copy permission: zero is unrestricted.
    pub copy_byte: u8,
}

/// The SCMS-T configuration, switched on or off.
pub open spec fn scms_t(enabled: bool) -> ScmsTConfig {
    ScmsTConfig { enabled, cp_type: 0x0002, copy_byte: 0x00 }
}

impl Default for ScmsTConfig {
    fn default() -> (c: ScmsTConfig)
        ensures
            c == scms_t(false),
    {
        ScmsTConfig { enabled: false, cp_type: 0x0002, copy_byte: 0x00 }
    }
}

/// The capability bytes of content protection: its type, low byte first.
pub open spec fn protection_bytes(c: ScmsTConfig) -> Option<Seq<u8>> {
    if c.enabled {
        Some(seq![(c.cp_type % 256) as u8, (c.cp_type / 256) as u8])
    } else {
        None
    }
}

impl ScmsTConfig {
    /// The capability bytes, if content protection is switched on.
    pub fn capability_bytes(&self) -> (r: Option<Vec<u8>>)
        ensures
            r is Some <==> protection_bytes(*self) is Some,
            r matches Some(v) ==> Some(v@) == protection_bytes(*self),
    {
        if !self.enabled {
            return None;
        }
        let lo: u8 = (self.cp_type % 256) as u8;
        let hi: u8 = (self.cp_type / 256) as u8;
        let v: Vec<u8> = vec![lo, hi];
        assert(v@ =~= seq![lo, hi]);
        Some(v)
    }

    /// A configuration with content protection switched on.
    pub fn with_scmst() -> (c: ScmsTConfig)
        ensures
            c == scms_t(true),
    {
        ScmsTConfig { enabled: true, cp_type: 0x0002, copy_byte: 0x00 }
    }
}

// ---------------------------------------------------------------------------------
// Laws of versions
// ---------------------------------------------------------------------------------

/// What is known of a version, by its numbers: two releases need a manual connection, the
/// larger bitpool came with 5.64 and experimental features with 5.66, and both stayed.
pub proof fn law_known_versions(ver: BlueZVersion)
    ensures
        ({
            let c = compat_of(Some(ver));
            let n = ver.major * 0x1_0000_0000 + ver.minor;
            &&& c.version == Some(ver)
            &&& c.needs_manual_a2dp_connect <==> n == 5 * 0x1_0000_0000 + 83 || n == 5
                * 0x1_0000_0000 + 84
            &&& n >= 5 * 0x1_0000_0000 + 64 ==> c.max_safe_bitpool == 76
            &&& n < 5 * 0x1_0000_0000 + 64 ==> c.max_safe_bitpool == 53
            &&& c.has_experimental <==> n >= 5 * 0x1_0000_0000 + 66
        }),
        compat_of(None).version is None,
        compat_of(None).max_safe_bitpool == 53,
        !compat_of(None).needs_manual_a2dp_connect,
        !compat_of(None).has_experimental,
{
}

/// Workarounds are added: none that was there is lost, and adding them twice changes nothing
/// more.
pub proof fn law_workarounds_are_added(info: CompatInfo, ver: BlueZVersion)
    ensures
        ({
            let w = with_workarounds(info, ver);
            let n = ver.major * 0x1_0000_0000 + ver.minor;
            &&& w.version == info.version
            &&& info.needs_manual_a2dp_connect ==> w.needs_manual_a2dp_connect
            &&& info.has_experimental ==> w.has_experimental
            &&& n < 5 * 0x1_0000_0000 + 64 ==> w == info
            &&& with_workarounds(w, ver) == w
        }),
{
}

/// The daemon's answer is read whatever white space is around it, with its name or without
/// it, and whatever stands behind a second dot.
pub proof fn law_answer_is_read(
    ver: BlueZVersion,
    before: Seq<char>,
    suffix: Seq<char>,
    after: Seq<char>,
)
    requires
        forall|i: int| 0 <= i < before.len() ==> text::is_white(#[trigger] before[i]),
        forall|i: int| 0 <= i < after.len() ==> text::is_white(#[trigger] after[i]),
        suffix.len() > 0 ==> suffix[0] == '.' && !text::is_white(suffix.last()),
    ensures
        ({
            let s = text::decimal(ver.major as nat) + "."@ + text::decimal(ver.minor as nat)
                + suffix;
            &&& version_of(before + s + after) == Some(ver)
            &&& version_of(before + ("bluetoothd - "@ + s) + after) == Some(ver)
        }),
{
    reveal_strlit(".");
    reveal_strlit("bluetoothd - ");
    let head = text::decimal(ver.major as nat);
    let tail = text::decimal(ver.minor as nat);
    let name = "bluetoothd - "@;
    let s = head + "."@ + tail + suffix;
    text::law_decimal_round_trip(ver.major);
    text::law_decimal_round_trip(ver.minor);
    text::lemma_decimal_digits(ver.major as nat);
    text::lemma_decimal_digits(ver.minor as nat);
    assert(text::is_digit(head[0]));
    assert(text::is_digit(tail[tail.len() - 1]));
    assert(s[0] == head[0]);
    assert(s.last() == (if suffix.len() > 0 {
        suffix.last()
    } else {
        tail[tail.len() - 1]
    }));
    text::law_trimming(before, s, after);
    assert((name + s).last() == s.last());
    text::law_trimming(before, name + s, after);
    if text::occurs_at(s, name, 0) {
        assert(s.subrange(0, 13)[0] == name[0]);
    }
    text::law_prefix_is_cut(s, name);
    lemma_index_of_dot(head, "."@ + tail + suffix);
    assert(s =~= head + ("."@ + tail + suffix));
    assert(s.take(head.len() as int) =~= head);
    assert(s.skip(head.len() as int + 1) =~= tail + suffix);
    lemma_index_of_dot(tail, suffix);
    assert((tail + suffix).take(tail.len() as int) =~= tail);
}

/// A text without a dot spells no version.
pub proof fn law_answer_without_dot(s: Seq<char>)
    requires
        !s.contains('.'),
    ensures
        dotted_version(s) is None,
{
    lemma_dot_behind(s, Seq::<char>::empty());
    assert(s + Seq::<char>::empty() =~= s);
}

/// The first answer that can be read counts: those before it that cannot be read, and all
/// behind it, make no difference.
pub proof fn law_first_answer_counts(
    before: Seq<Option<Seq<char>>>,
    answer: Seq<char>,
    after: Seq<Option<Seq<char>>>,
)
    requires
        forall|i: int|
            0 <= i < before.len() ==> ((#[trigger] before[i]) matches Some(s) ==> version_of(s) is None),
    ensures
        version_of(answer) is Some ==> first_version(before + seq![Some(answer)] + after)
            == version_of(answer),
        first_version(before) is None,
    decreases before.len(),
{
    let all = before + seq![Some(answer)] + after;
    if before.len() > 0 {
        let less = before.skip(1);
        assert forall|i: int| 0 <= i < less.len() implies ((#[trigger] less[i]) matches Some(
            s,
        ) ==> version_of(s) is None) by {
            assert(less[i] == before[i + 1]);
        }
        law_first_answer_counts(less, answer, after);
        assert(all.skip(1) =~= less + seq![Some(answer)] + after);
        assert(all[0] == before[0]);
    } else {
        assert(all[0] == Some(answer));
    }
}

/// The texts of answers and of printed bytes, one for each and in the same order.
pub proof fn law_answers_in_order(
    answers: Seq<Option<String>>,
    outputs: Seq<Option<Vec<u8>>>,
    i: int,
)
    ensures
        answer_texts(answers).len() == answers.len(),
        output_texts(outputs).len() == outputs.len(),
        0 <= i < answers.len() ==> (match answers[i] {
            Some(s) => answer_texts(answers)[i] == Some(s@),
            None => answer_texts(answers)[i] is None,
        }),
        0 <= i < outputs.len() ==> (match outputs[i] {
            Some(v) => output_texts(outputs)[i] == Some(text::lossy_text(v@)),
            None => output_texts(outputs)[i] is None,
        }),
{
}

/// The capability bytes are there if protection is switched on, and spell its type, the low
/// byte first.
pub proof fn law_protection_bytes(c: ScmsTConfig)
    ensures
        protection_bytes(c) is Some <==> c.enabled,
        c.enabled ==> protection_bytes(c)->0.len() == 2 && protection_bytes(c)->0[0] + 256
            * protection_bytes(c)->0[1] == c.cp_type,
        scms_t(true).enabled && !scms_t(false).enabled,
        protection_bytes(scms_t(true)) == Some(seq![2u8, 0u8]),
        scms_t(true).copy_byte == 0 && scms_t(false).copy_byte == 0,
        scms_t(false).cp_type == 2,
{
    assert(protection_bytes(scms_t(true))->0 =~= seq![2u8, 0u8]);
}

/// A version has a number before its first dot and one behind it: where either is none, the
/// text spells no version.
pub proof fn law_version_needs_numbers(head: Seq<char>, tail: Seq<char>, rest: Seq<char>)
    requires
        !head.contains('.'),
        !tail.contains('.'),
        rest.len() > 0 ==> rest[0] == '.',
    ensures
        ({
            let s = head + seq!['.'] + tail + rest;
            match (text::u32_of(head), text::u32_of(tail)) {
                (Some(major), Some(minor)) => dotted_version(s) == Some(
                    BlueZVersion { major, minor },
                ),
                _ => dotted_version(s) is None,
            }
        }),
{
    let s = head + seq!['.'] + tail + rest;
    lemma_dot_behind(head, seq!['.'] + tail + rest);
    assert(s =~= head + (seq!['.'] + tail + rest));
    assert(s.take(head.len() as int) =~= head);
    assert(s.skip(head.len() as int + 1) =~= tail + rest);
    lemma_dot_behind(tail, rest);
    assert((tail + rest).take(tail.len() as int) =~= tail);
}

proof fn lemma_dot_behind(s: Seq<char>, rest: Seq<char>)
    requires
        !s.contains('.'),
        rest.len() == 0 || rest[0] == '.',
    ensures
        index_or_len(s + rest, '.') == s.len(),
    decreases s.len(),
{
    if s.len() > 0 {
        assert(s.contains(s[0]));
        assert((s + rest).skip(1) =~= s.skip(1) + rest);
        assert forall|i: int| 0 <= i < s.skip(1).len() implies s.skip(1)[i] != '.' by {
            assert(s.contains(s[i + 1]));
        }
        lemma_dot_behind(s.skip(1), rest);
    } else {
        assert(s + rest =~= rest);
    }
}

} // verus!
