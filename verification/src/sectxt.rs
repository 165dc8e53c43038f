//! security.txt evaluation (RFC 9116): `Contact` and `Expires` are
//! required, an expired `Expires` gets a grace window before it fails,
//! and unknown fields are tolerated: the standard is extensible.
use vstd::prelude::*;
use crate::text::{
    ascii_lower, char_position, chars_equal, chars_of, chars_range, find_char, lower_chars,
    push_chars, push_str, string_of, trim, trim_range,
};
use crate::time::{rfc3339_instant, rfc3339_to_epoch};

verus! {

/// Grace window after `Expires` (seconds): 30 days. Within it the state
/// is a visible warning, not a failure.
pub const EXPIRES_GRACE_SECS: i64 = 30 * 86400;

#[derive(Debug, Clone, PartialEq, Eq)]
pub enum SecTxtStatus {
    Valid,
    /// Expired, but within the grace window.
    ExpiredInGrace { expired_at: String },
    Invalid { reasons: Vec<String> },
}

/// A security.txt verdict over character sequences.
pub enum SecTxtVerdict {
    Valid,
    ExpiredInGrace(Seq<char>),
    Invalid(Seq<Seq<char>>),
}

impl View for SecTxtStatus {
    type V = SecTxtVerdict;

    open spec fn view(&self) -> SecTxtVerdict {
        match self {
            SecTxtStatus::Valid => SecTxtVerdict::Valid,
            SecTxtStatus::ExpiredInGrace { expired_at } => SecTxtVerdict::ExpiredInGrace(expired_at@),
            SecTxtStatus::Invalid { reasons } => SecTxtVerdict::Invalid(
                reasons@.map_values(|r: String| r@),
            ),
        }
    }
}

/// The pieces of `s` between newline characters.
pub open spec fn split_lines(s: Seq<char>) -> Seq<Seq<char>>
    decreases s.len(),
{
    if s.len() == 0 {
        seq![Seq::<char>::empty()]
    } else {
        let before = split_lines(s.drop_last());
        if s.last() == '\n' {
            before.push(Seq::<char>::empty())
        } else {
            before.update(before.len() - 1, before.last().push(s.last()))
        }
    }
}

/// The field a line holds: `Name: value`, the name lowered in ASCII and
/// both parts trimmed. Blank lines, `#` comments and lines without a
/// colon hold none.
pub open spec fn field_of(line: Seq<char>) -> Option<(Seq<char>, Seq<char>)> {
    let t = trim(line);
    let k = char_position(line, ':', 0);
    if t.len() == 0 || t[0] == '#' || k == line.len() {
        None
    } else {
        Some((ascii_lower(trim(line.subrange(0, k))), trim(line.subrange(k + 1, line.len() as int))))
    }
}

/// The fields of the lines, in order.
pub open spec fn fields_of_lines(lines: Seq<Seq<char>>) -> Seq<(Seq<char>, Seq<char>)>
    decreases lines.len(),
{
    if lines.len() == 0 {
        seq![]
    } else {
        let before = fields_of_lines(lines.drop_last());
        match field_of(lines.last()) {
            Some(f) => before.push(f),
            None => before,
        }
    }
}

/// The fields of a security.txt body, in order.
pub open spec fn security_fields(content: Seq<char>) -> Seq<(Seq<char>, Seq<char>)> {
    fields_of_lines(split_lines(content))
}

/// Whether some `Contact` field has a value.
pub open spec fn has_contact(fields: Seq<(Seq<char>, Seq<char>)>) -> bool {
    exists|i: int| 0 <= i < fields.len() && (#[trigger] fields[i]).0 == "contact"@ && fields[i].1.len() > 0
}

/// The value of the first field called `name`.
pub open spec fn first_value(fields: Seq<(Seq<char>, Seq<char>)>, name: Seq<char>) -> Option<Seq<char>>
    decreases fields.len(),
{
    if fields.len() == 0 {
        None
    } else {
        match first_value(fields.drop_last(), name) {
            Some(v) => Some(v),
            None => if fields.last().0 == name {
                Some(fields.last().1)
            } else {
                None
            },
        }
    }
}

/// Whether a line is malformed: neither blank nor a `#` comment, and
/// without the colon of `Name: value`.
pub open spec fn is_malformed(line: Seq<char>) -> bool {
    let t = trim(line);
    t.len() > 0 && t[0] != '#' && char_position(line, ':', 0) == line.len()
}

/// The reason that reports a malformed line, naming it (trimmed).
pub open spec fn malformed_reason(line: Seq<char>) -> Seq<char> {
    "malformed line (no colon): \u{ab}"@ + trim(line) + "\u{bb}"@
}

/// The report of a line: its reason when it is malformed.
pub open spec fn malformed_of(line: Seq<char>) -> Option<Seq<char>> {
    if is_malformed(line) {
        Some(malformed_reason(line))
    } else {
        None
    }
}

/// The reports of the malformed lines, in order.
pub open spec fn malformed_reasons(lines: Seq<Seq<char>>) -> Seq<Seq<char>>
    decreases lines.len(),
{
    if lines.len() == 0 {
        seq![]
    } else {
        let before = malformed_reasons(lines.drop_last());
        match malformed_of(lines.last()) {
            Some(m) => before.push(m),
            None => before,
        }
    }
}

/// The reasons a verdict gives: none unless it is a failure.
pub open spec fn reasons_of(v: SecTxtVerdict) -> Seq<Seq<char>> {
    match v {
        SecTxtVerdict::Invalid(reasons) => reasons,
        _ => seq![],
    }
}

/// What a security.txt body is worth at instant `now`: the verdict on its
/// fields, and a failure that also reports every malformed line when
/// there is one.
pub open spec fn security_verdict(content: Seq<char>, now: int) -> SecTxtVerdict {
    let bad = malformed_reasons(split_lines(content));
    let verdict = fields_verdict(security_fields(content), now);
    if bad.len() == 0 {
        verdict
    } else {
        SecTxtVerdict::Invalid(reasons_of(verdict) + bad)
    }
}

/// What the fields of a security.txt body are worth at instant `now`.
pub open spec fn fields_verdict(fields: Seq<(Seq<char>, Seq<char>)>, now: int) -> SecTxtVerdict {
    let contact_reasons: Seq<Seq<char>> = if has_contact(fields) {
        seq![]
    } else {
        seq!["required field Contact missing"@]
    };
    let when_complete = |v: SecTxtVerdict| if contact_reasons.len() == 0 {
        v
    } else {
        SecTxtVerdict::Invalid(contact_reasons)
    };
    match first_value(fields, "expires"@) {
        None => SecTxtVerdict::Invalid(contact_reasons.push("required field Expires missing"@)),
        Some(value) => match rfc3339_instant(value) {
            None => SecTxtVerdict::Invalid(
                contact_reasons.push("Expires not RFC 3339: \u{ab}"@ + value + "\u{bb}"@),
            ),
            Some(expires) => if now <= expires {
                when_complete(SecTxtVerdict::Valid)
            } else if now <= expires + EXPIRES_GRACE_SECS {
                when_complete(SecTxtVerdict::ExpiredInGrace(value))
            } else {
                SecTxtVerdict::Invalid(contact_reasons.push("Expires past the grace window: "@ + value))
            },
        },
    }
}

/// The field views of executable fields.
pub open spec fn fields_view(v: Seq<(Vec<char>, Vec<char>)>) -> Seq<(Seq<char>, Seq<char>)> {
    v.map_values(|p: (Vec<char>, Vec<char>)| (p.0@, p.1@))
}

/// The field a line holds.
fn field_of_line(line: &Vec<char>) -> (r: Option<(Vec<char>, Vec<char>)>)
    ensures
        match r {
            Some(p) => field_of(line@) == Some((p.0@, p.1@)),
            None => field_of(line@) is None,
        },
{
    let (lo, hi) = trim_range(line, 0, line.len());
    assert(line@.subrange(0, line@.len() as int) =~= line@);
    let k = find_char(line, ':', 0);
    if lo == hi || line[lo] == '#' || k == line.len() {
        return None;
    }
    let (a, b) = trim_range(line, 0, k);
    let name = lower_chars(&chars_range(line, a, b));
    let (c, d) = trim_range(line, k + 1, line.len());
    let value = chars_range(line, c, d);
    Some((name, value))
}

/// The reports of malformed lines, as character sequences.
pub open spec fn lines_view(v: Seq<Vec<char>>) -> Seq<Seq<char>> {
    v.map_values(|l: Vec<char>| l@)
}

/// The report of a line when it is malformed.
fn malformed_of_line(line: &Vec<char>) -> (r: Option<Vec<char>>)
    ensures
        match r {
            Some(m) => malformed_of(line@) == Some(m@),
            None => malformed_of(line@) is None,
        },
{
    let (lo, hi) = trim_range(line, 0, line.len());
    assert(line@.subrange(0, line@.len() as int) =~= line@);
    let k = find_char(line, ':', 0);
    if lo == hi || line[lo] == '#' || k < line.len() {
        return None;
    }
    let mut text: Vec<char> = Vec::new();
    push_str(&mut text, "malformed line (no colon): \u{ab}");
    push_chars(&mut text, &chars_range(line, lo, hi));
    push_str(&mut text, "\u{bb}");
    Some(text)
}

/// The fields of a security.txt body, in order (RFC 9116: `Name: value`,
/// names case-insensitive, `#` comments; unknown names are kept), and the
/// reports of its malformed lines, in order.
fn fields(content: &str) -> (r: (Vec<(Vec<char>, Vec<char>)>, Vec<Vec<char>>))
    ensures
        fields_view(r.0@) == security_fields(content@),
        lines_view(r.1@) == malformed_reasons(split_lines(content@)),
{
    let chars = chars_of(content);
    let mut out: Vec<(Vec<char>, Vec<char>)> = Vec::new();
    let mut bad: Vec<Vec<char>> = Vec::new();
    let mut line: Vec<char> = Vec::new();
    let ghost mut done: Seq<Seq<char>> = seq![];
    let mut i: usize = 0;
    assert(chars@.subrange(0, 0) =~= Seq::<char>::empty());
    assert(split_lines(Seq::<char>::empty()) =~= seq![line@]);
    while i < chars.len()
        invariant
            i <= chars@.len(),
            split_lines(chars@.subrange(0, i as int)) == done.push(line@),
            fields_view(out@) == fields_of_lines(done),
            lines_view(bad@) == malformed_reasons(done),
        decreases chars@.len() - i,
    {
        let c = chars[i];
        assert(chars@.subrange(0, i + 1).drop_last() =~= chars@.subrange(0, i as int));
        if c == '\n' {
            let ghost previous = line@;
            match field_of_line(&line) {
                Some(f) => {
                    out.push(f);
                },
                None => {},
            }
            match malformed_of_line(&line) {
                Some(m) => {
                    bad.push(m);
                },
                None => {},
            }
            proof {
                assert(done.push(previous).drop_last() =~= done);
                done = done.push(previous);
            }
            assert(fields_view(out@) =~= fields_of_lines(done));
            assert(lines_view(bad@) =~= malformed_reasons(done));
            line = Vec::new();
            assert(split_lines(chars@.subrange(0, i + 1)) =~= done.push(line@));
        } else {
            line.push(c);
            assert(split_lines(chars@.subrange(0, i + 1)) =~= done.push(line@));
        }
        i = i + 1;
    }
    assert(chars@.subrange(0, chars@.len() as int) =~= content@);
    let ghost last = line@;
    match field_of_line(&line) {
        Some(f) => {
            out.push(f);
        },
        None => {},
    }
    match malformed_of_line(&line) {
        Some(m) => {
            bad.push(m);
        },
        None => {},
    }
    assert(done.push(last).drop_last() =~= done);
    assert(fields_view(out@) =~= fields_of_lines(done.push(last)));
    assert(lines_view(bad@) =~= malformed_reasons(done.push(last)));
    (out, bad)
}

/// The verdict on the fields of a body at instant `now`.
fn judge_fields(fields: &Vec<(Vec<char>, Vec<char>)>, now: i64) -> (r: SecTxtStatus)
    ensures
        r@ == fields_verdict(fields_view(fields@), now as int),
{
    let ghost fs = fields_view(fields@);
    let contact_name = chars_of("contact");
    let expires_name = chars_of("expires");
    let mut contact = false;
    let mut expires: Option<usize> = None;
    let mut i: usize = 0;
    while i < fields.len()
        invariant
            i <= fields@.len(),
            fs == fields_view(fields@),
            contact_name@ == "contact"@,
            expires_name@ == "expires"@,
            contact == exists|j: int| 0 <= j < i && (#[trigger] fs[j]).0 == "contact"@ && fs[j].1.len() > 0,
            match expires {
                Some(j) => j < i && first_value(fs.subrange(0, i as int), "expires"@) == Some(fs[j as int].1),
                None => first_value(fs.subrange(0, i as int), "expires"@) is None,
            },
        decreases fields@.len() - i,
    {
        assert(fs.subrange(0, i + 1).drop_last() =~= fs.subrange(0, i as int));
        let (name, value) = (&fields[i].0, &fields[i].1);
        if chars_equal(name, &contact_name) && value.len() > 0 {
            contact = true;
        }
        if expires.is_none() && chars_equal(name, &expires_name) {
            expires = Some(i);
        }
        i = i + 1;
    }
    assert(fs.subrange(0, fields@.len() as int) =~= fs);
    let mut reasons: Vec<String> = Vec::new();
    if !contact {
        reasons.push(String::from_str("required field Contact missing"));
    }
    let ghost contact_reasons = reasons@.map_values(|r: String| r@);
    assert(contact == has_contact(fs));
    assert(contact_reasons =~= (if has_contact(fs) { seq![] } else { seq!["required field Contact missing"@] }));
    match expires {
        None => {
            reasons.push(String::from_str("required field Expires missing"));
            assert(reasons@.map_values(|r: String| r@) =~= contact_reasons.push("required field Expires missing"@));
            SecTxtStatus::Invalid { reasons }
        },
        Some(j) => {
            let value = &fields[j].1;
            let value_string = string_of(value);
            match rfc3339_to_epoch(value_string.as_str()) {
                None => {
                    let mut text: Vec<char> = Vec::new();
                    push_str(&mut text, "Expires not RFC 3339: \u{ab}");
                    push_chars(&mut text, value);
                    push_str(&mut text, "\u{bb}");
                    reasons.push(string_of(&text));
                    assert(reasons@.map_values(|r: String| r@) =~= contact_reasons.push(
                        "Expires not RFC 3339: \u{ab}"@ + value@ + "\u{bb}"@,
                    ));
                    SecTxtStatus::Invalid { reasons }
                },
                Some(expires_at) => {
                    if now <= expires_at {
                        if reasons.len() == 0 {
                            SecTxtStatus::Valid
                        } else {
                            SecTxtStatus::Invalid { reasons }
                        }
                    } else if now <= expires_at + EXPIRES_GRACE_SECS {
                        if reasons.len() == 0 {
                            SecTxtStatus::ExpiredInGrace { expired_at: value_string }
                        } else {
                            SecTxtStatus::Invalid { reasons }
                        }
                    } else {
                        let mut text: Vec<char> = Vec::new();
                        push_str(&mut text, "Expires past the grace window: ");
                        push_chars(&mut text, value);
                        reasons.push(string_of(&text));
                        assert(reasons@.map_values(|r: String| r@) =~= contact_reasons.push(
                            "Expires past the grace window: "@ + value@,
                        ));
                        SecTxtStatus::Invalid { reasons }
                    }
                },
            }
        },
    }
}


/// Evaluates a security.txt body at instant `now` (epoch seconds).
pub fn evaluate(content: &str, now: i64) -> (r: SecTxtStatus)
    ensures
        r@ == security_verdict(content@, now as int),
{
    let (found, bad) = fields(content);
    let verdict = judge_fields(&found, now);
    if bad.len() == 0 {
        return verdict;
    }
    let ghost first = reasons_of(verdict@);
    let mut reasons: Vec<String> = match verdict {
        SecTxtStatus::Invalid { reasons } => reasons,
        _ => Vec::new(),
    };
    assert(reasons@.map_values(|r: String| r@) =~= first);
    let ghost reports = lines_view(bad@);
    let mut i: usize = 0;
    while i < bad.len()
        invariant
            i <= bad@.len(),
            reports == lines_view(bad@),
            reasons@.map_values(|r: String| r@) == first + reports.subrange(0, i as int),
        decreases bad@.len() - i,
    {
        let ghost before = reasons@.map_values(|r: String| r@);
        reasons.push(string_of(&bad[i]));
        assert(reasons@.map_values(|r: String| r@) =~= before.push(bad@[i as int]@));
        assert(first + reports.subrange(0, i + 1) =~= (first + reports.subrange(0, i as int)).push(reports[i as int]));
        i = i + 1;
    }
    assert(reports.subrange(0, bad@.len() as int) =~= reports);
    SecTxtStatus::Invalid { reasons }
}

/// How far a verdict is from a clean pass: valid, warning, failure.
pub open spec fn verdict_rank(v: SecTxtVerdict) -> int {
    match v {
        SecTxtVerdict::Valid => 0,
        SecTxtVerdict::ExpiredInGrace(_) => 1,
        SecTxtVerdict::Invalid(_) => 2,
    }
}

/// Time only wears a security.txt down: a later instant never gives a
/// better verdict than an earlier one.
pub proof fn lemma_verdict_worsens_over_time(content: Seq<char>, earlier: int, later: int)
    requires
        earlier <= later,
    ensures
        verdict_rank(security_verdict(content, earlier)) <= verdict_rank(security_verdict(content, later)),
{
}

/// Characters without a newline extend the last line.
proof fn lemma_split_lines_extend(a: Seq<char>, b: Seq<char>)
    requires
        forall|i: int| 0 <= i < b.len() ==> b[i] != '\n',
    ensures
        split_lines(a + b) == split_lines(a).update(
            split_lines(a).len() - 1,
            split_lines(a).last() + b,
        ),
        split_lines(a).len() >= 1,
    decreases b.len(),
{
    lemma_split_lines_nonempty(a);
    if b.len() == 0 {
        assert(a + b =~= a);
        assert(split_lines(a).last() + b =~= split_lines(a).last());
        assert(split_lines(a).update(split_lines(a).len() - 1, split_lines(a).last())
            =~= split_lines(a));
    } else {
        lemma_split_lines_extend(a, b.drop_last());
        assert((a + b).drop_last() =~= a + b.drop_last());
        lemma_split_lines_nonempty(a + b.drop_last());
        let before = split_lines(a + b.drop_last());
        let lines = split_lines(a);
        assert((a + b).last() == b.last());
        assert(b.last() != '\n');
        assert(split_lines(a + b) == before.update(before.len() - 1, before.last().push(b.last())));
        assert(before.last() == lines.last() + b.drop_last());
        assert((lines.last() + b.drop_last()).push(b.last()) =~= lines.last() + b);
        assert(split_lines(a + b) =~= split_lines(a).update(
            split_lines(a).len() - 1,
            split_lines(a).last() + b,
        ));
    }
}

/// There is always a last line.
proof fn lemma_split_lines_nonempty(s: Seq<char>)
    ensures
        split_lines(s).len() >= 1,
    decreases s.len(),
{
    if s.len() > 0 {
        lemma_split_lines_nonempty(s.drop_last());
    }
}

/// The lines of a body with one more line after a line break.
proof fn lemma_lines_of_appended(content: Seq<char>, line: Seq<char>)
    requires
        forall|i: int| 0 <= i < line.len() ==> line[i] != '\n',
    ensures
        split_lines(content + seq!['\n'] + line) == split_lines(content).push(line),
        split_lines(content).push(line).drop_last() == split_lines(content),
{
    let with_break = content + seq!['\n'];
    assert(with_break.drop_last() =~= content);
    lemma_split_lines_nonempty(content);
    lemma_split_lines_extend(with_break, line);
    let lines = split_lines(content);
    assert(split_lines(with_break) == lines.push(Seq::<char>::empty()));
    assert(split_lines(content + seq!['\n'] + line) =~= lines.push(line));
    assert(lines.push(line).drop_last() =~= lines);
}

/// Unknown fields are tolerated: a further line that is blank, a comment,
/// or a field other than `Contact` and `Expires` leaves the verdict as it
/// is.
pub proof fn lemma_unknown_field_tolerated(content: Seq<char>, line: Seq<char>, now: int)
    requires
        forall|i: int| 0 <= i < line.len() ==> line[i] != '\n',
        !is_malformed(line),
        field_of(line) matches Some(f) ==> f.0 != "contact"@ && f.0 != "expires"@,
    ensures
        security_verdict(content + seq!['\n'] + line, now) == security_verdict(content, now),
{
    lemma_lines_of_appended(content, line);
    let lines = split_lines(content);
    assert(malformed_reasons(lines.push(line)) == malformed_reasons(lines));
    let fs = security_fields(content);
    let grown = fields_of_lines(lines.push(line));
    match field_of(line) {
        Some(f) => {
            assert(grown == fs.push(f));
            assert(fs.push(f).drop_last() =~= fs);
            assert(has_contact(grown) == has_contact(fs)) by {
                if has_contact(grown) {
                    let i = choose|i: int| 0 <= i < grown.len() && (#[trigger] grown[i]).0 == "contact"@ && grown[i].1.len() > 0;
                    assert(i < fs.len());
                    assert(fs[i] == grown[i]);
                }
                if has_contact(fs) {
                    let i = choose|i: int| 0 <= i < fs.len() && (#[trigger] fs[i]).0 == "contact"@ && fs[i].1.len() > 0;
                    assert(fs[i] == grown[i]);
                }
            }
            assert(first_value(grown, "expires"@) == first_value(fs, "expires"@));
        },
        None => {
            assert(grown == fs);
        },
    }
}

/// Malformed lines are reported: a further line without a colon that is
/// neither blank nor a comment makes the body fail, with a reason that
/// names the line.
pub proof fn lemma_malformed_line_reported(content: Seq<char>, line: Seq<char>, now: int)
    requires
        forall|i: int| 0 <= i < line.len() ==> line[i] != '\n',
        is_malformed(line),
    ensures
        security_verdict(content + seq!['\n'] + line, now) matches SecTxtVerdict::Invalid(reasons)
            && reasons.contains(malformed_reason(line)),
{
    lemma_lines_of_appended(content, line);
    let lines = split_lines(content);
    let bad = malformed_reasons(lines.push(line));
    assert(bad == malformed_reasons(lines).push(malformed_reason(line)));
    let verdict = fields_verdict(fields_of_lines(lines.push(line)), now);
    let all = reasons_of(verdict) + bad;
    assert(all[all.len() - 1] == malformed_reason(line));
}

/// The expiry window: for a body with a `Contact`, a first `Expires` that
/// names an instant, and no malformed line, the verdict is valid up to
/// and including that instant, a warning naming the `Expires` value for
/// 30 days (2592000 seconds) after it, inclusive, and a failure after that.
pub proof fn lemma_expiry_window(content: Seq<char>, now: int, value: Seq<char>, expires: int)
    requires
        has_contact(security_fields(content)),
        first_value(security_fields(content), "expires"@) == Some(value),
        rfc3339_instant(value) == Some(expires),
        malformed_reasons(split_lines(content)).len() == 0,
    ensures
        security_verdict(content, now) == if now <= expires {
            SecTxtVerdict::Valid
        } else if now <= expires + 2592000 {
            SecTxtVerdict::ExpiredInGrace(value)
        } else {
            SecTxtVerdict::Invalid(seq!["Expires past the grace window: "@ + value])
        },
{
    assert(seq![]+ seq!["Expires past the grace window: "@ + value] =~= seq!["Expires past the grace window: "@ + value]);
}

/// The required fields: a body without a `Contact` that has a value fails
/// with a reason saying so, one without an `Expires` fails with a reason
/// saying so, and one whose first `Expires` names no instant fails with a
/// reason that quotes it.
pub proof fn lemma_required_fields_reported(content: Seq<char>, now: int)
    ensures
        !has_contact(security_fields(content)) ==> (security_verdict(content, now) matches SecTxtVerdict::Invalid(r)
            && r.contains("required field Contact missing"@)),
        first_value(security_fields(content), "expires"@) is None ==> (security_verdict(content, now) matches SecTxtVerdict::Invalid(r)
            && r.contains("required field Expires missing"@)),
        (first_value(security_fields(content), "expires"@) matches Some(v) && rfc3339_instant(v) is None)
            ==> (security_verdict(content, now) matches SecTxtVerdict::Invalid(r)
            && r.contains("Expires not RFC 3339: \u{ab}"@ + first_value(security_fields(content), "expires"@)->Some_0 + "\u{bb}"@)),
{
    let fields = security_fields(content);
    let bad = malformed_reasons(split_lines(content));
    let verdict = fields_verdict(fields, now);
    let all = reasons_of(verdict) + bad;
    let contact_reasons: Seq<Seq<char>> = if has_contact(fields) {
        seq![]
    } else {
        seq!["required field Contact missing"@]
    };
    if !has_contact(fields) {
        assert(reasons_of(verdict)[0] == "required field Contact missing"@);
        assert(all[0] == "required field Contact missing"@);
    }
    match first_value(fields, "expires"@) {
        None => {
            let k = contact_reasons.len() as int;
            assert(reasons_of(verdict)[k] == "required field Expires missing"@);
            assert(all[k] == "required field Expires missing"@);
        },
        Some(v) => {
            if rfc3339_instant(v) is None {
                let k = contact_reasons.len() as int;
                assert(all[k] == "Expires not RFC 3339: \u{ab}"@ + v + "\u{bb}"@);
            }
        },
    }
}

} // verus!
