//! Finding this machine's LAN address in the text that the platform's
//! network tools print (`ipconfig`, `ifconfig`, `ip -o -4 addr show`).

use vstd::prelude::*;
use crate::ipv4::{
    format_ipv4, ipv4_text, is_link_local, is_loopback, lemma_split_concat,
    lemma_split_without_sep, parse_ipv4, spec_is_link_local, spec_is_loopback, spec_parse_ipv4,
    Ipv4,
};
use crate::number::is_digit;
use crate::text::{
    chars_of, contains_chars, contains_seq, copy_range, count_char, count_of, holds_seqs,
    lemma_split_nonempty, occurs_at, split_chars, split_seq, trim, trim_chars, words, words_of,
};

verus! {

/// An address worth announcing: neither loopback nor link-local.
pub open spec fn usable(ip: Ipv4) -> bool {
    !spec_is_loopback(ip) && !spec_is_link_local(ip)
}

/// `ip` when it is usable.
pub open spec fn keep_usable(ip: Option<Ipv4>) -> Option<Ipv4> {
    match ip {
        Some(a) => if usable(a) {
            Some(a)
        } else {
            None
        },
        None => None,
    }
}

/// The first address, in line order, that `f` finds in a line.
pub open spec fn first_ip(lines: Seq<Seq<char>>, f: spec_fn(Seq<char>) -> Option<Ipv4>) -> Option<
    Ipv4,
>
    decreases lines.len(),
{
    if lines.len() == 0 {
        None
    } else {
        match f(lines[0]) {
            Some(ip) => Some(ip),
            None => first_ip(lines.drop_first(), f),
        }
    }
}

/// The lines of tool output, split at each `\n`. A line's trailing `\r`,
/// and the empty piece after a final `\n`, change nothing below: every line
/// reader trims the line or splits it at whitespace first.
pub open spec fn lines_of(s: Seq<char>) -> Seq<Seq<char>> {
    split_seq(s, '\n')
}

/// The text after the first colon (`:` or the full-width `：`) of a line,
/// up to the next one; empty when the line has no colon.
pub open spec fn after_colon(t: Seq<char>) -> Seq<char> {
    let a = split_seq(t, ':');
    let b = split_seq(t, '\u{FF1A}');
    if a.len() >= 2 {
        a[1]
    } else if b.len() >= 2 {
        b[1]
    } else {
        Seq::<char>::empty()
    }
}

/// The first word with exactly three dots.
pub open spec fn first_dotted_word(ws: Seq<Seq<char>>) -> Option<Seq<char>>
    decreases ws.len(),
{
    if ws.len() == 0 {
        None
    } else if count_char(ws[0], '.') == 3 {
        Some(ws[0])
    } else {
        first_dotted_word(ws.drop_first())
    }
}

/// The longest prefix of `s` made of ASCII digits and dots.
pub open spec fn ip_prefix(s: Seq<char>) -> Seq<char>
    decreases s.len(),
{
    if s.len() > 0 && (is_digit(s[0]) || s[0] == '.') {
        seq![s[0]] + ip_prefix(s.drop_first())
    } else {
        Seq::<char>::empty()
    }
}

/// `IPv4` as text.
pub open spec fn ipv4_label() -> Seq<char> {
    seq!['I', 'P', 'v', '4']
}

/// The address that an `ipconfig` line shows: the line mentions `IPv4`, and
/// the first dotted word after its colon, cut at the first character that is
/// neither digit nor dot, is a usable address.
pub open spec fn ipconfig_line_ip(line: Seq<char>) -> Option<Ipv4> {
    let t = trim(line);
    if !contains_seq(t, ipv4_label()) {
        None
    } else {
        match first_dotted_word(words(trim(after_colon(t)))) {
            Some(raw) => keep_usable(spec_parse_ipv4(ip_prefix(raw))),
            None => None,
        }
    }
}

/// `inet ` as text.
pub open spec fn inet_prefix() -> Seq<char> {
    seq!['i', 'n', 'e', 't', ' ']
}

/// The address that an `ifconfig` line shows: the trimmed line starts with
/// `inet `, and the first word after it is a usable address.
pub open spec fn ifconfig_line_ip(line: Seq<char>) -> Option<Ipv4> {
    let t = trim(line);
    if t.len() >= 5 && t.take(5) == inet_prefix() {
        let ws = words(t.skip(5));
        if ws.len() >= 1 {
            keep_usable(spec_parse_ipv4(ws[0]))
        } else {
            None
        }
    } else {
        None
    }
}

/// `inet` as text.
pub open spec fn inet_word() -> Seq<char> {
    seq!['i', 'n', 'e', 't']
}

/// The word right after the first word `inet`.
pub open spec fn word_after_inet(ws: Seq<Seq<char>>) -> Option<Seq<char>>
    decreases ws.len(),
{
    if ws.len() == 0 {
        None
    } else if ws[0] == inet_word() {
        if ws.len() >= 2 {
            Some(ws[1])
        } else {
            None
        }
    } else {
        word_after_inet(ws.drop_first())
    }
}

/// The address that an `ip -o -4 addr show` line shows: the word after
/// `inet`, up to its first `/`, is a usable address.
pub open spec fn ip_addr_line_ip(line: Seq<char>) -> Option<Ipv4> {
    match word_after_inet(words(line)) {
        Some(w) => keep_usable(spec_parse_ipv4(split_seq(w, '/')[0])),
        None => None,
    }
}

/// The address that `ipconfig` output shows first.
pub open spec fn ipconfig_ip(out: Seq<char>) -> Option<Ipv4> {
    first_ip(lines_of(out), |l: Seq<char>| ipconfig_line_ip(l))
}

/// The address that `ifconfig <interface>` output shows first.
pub open spec fn ifconfig_ip(out: Seq<char>) -> Option<Ipv4> {
    first_ip(lines_of(out), |l: Seq<char>| ifconfig_line_ip(l))
}

/// The address that `ip -o -4 addr show` output shows first.
pub open spec fn ip_addr_ip(out: Seq<char>) -> Option<Ipv4> {
    first_ip(lines_of(out), |l: Seq<char>| ip_addr_line_ip(l))
}

/// An optional address as the optional text that `Ipv4Addr::to_string` gives.
pub open spec fn text_matches(r: Option<String>, ip: Option<Ipv4>) -> bool {
    match ip {
        Some(a) => r is Some && r->0@ == ipv4_text(a),
        None => r is None,
    }
}

/// Keeps a parsed address only when it is usable.
fn keep_usable_exec(ip: Option<Ipv4>) -> (r: Option<Ipv4>)
    ensures
        r == keep_usable(ip),
{
    match ip {
        Some(a) => if !is_loopback(a) && !is_link_local(a) {
            Some(a)
        } else {
            None
        },
        None => None,
    }
}

/// The longest prefix of `s` made of ASCII digits and dots.
pub fn ip_prefix_chars(s: &[char]) -> (v: Vec<char>)
    ensures
        v@ == ip_prefix(s@),
{
    let mut i: usize = 0;
    assert(s@.skip(0) =~= s@);
    while i < s.len() && ((48 <= s[i] as u32 && s[i] as u32 <= 57) || s[i] == '.')
        invariant
            i <= s@.len(),
            ip_prefix(s@) == s@.take(i as int) + ip_prefix(s@.skip(i as int)),
        decreases s@.len() - i,
    {
        assert(s@.skip(i as int).drop_first() =~= s@.skip(i + 1));
        assert(s@.take(i as int) + (seq![s@[i as int]] + ip_prefix(s@.skip(i + 1))) =~= s@.take(i + 1)
            + ip_prefix(s@.skip(i + 1)));
        i = i + 1;
    }
    assert(ip_prefix(s@.skip(i as int)) =~= Seq::<char>::empty());
    assert(s@.take(i as int) + Seq::<char>::empty() =~= s@.take(i as int));
    copy_range(s, 0, i)
}

/// The text after the first colon of a trimmed `ipconfig` line.
fn after_colon_chars(t: &[char]) -> (v: Vec<char>)
    ensures
        v@ == after_colon(t@),
{
    let a = split_chars(t, ':');
    if a.len() >= 2 {
        return copy_range(a[1].as_slice(), 0, a[1].len());
    }
    let b = split_chars(t, '\u{FF1A}');
    if b.len() >= 2 {
        return copy_range(b[1].as_slice(), 0, b[1].len());
    }
    Vec::new()
}

/// The address that one `ipconfig` line shows.
#[verifier::loop_isolation(false)]
pub fn ipconfig_line_address(line: &[char]) -> (r: Option<Ipv4>)
    ensures
        r == ipconfig_line_ip(line@),
{
    let t = trim_chars(line);
    let label = vec!['I', 'P', 'v', '4'];
    assert(label@ =~= ipv4_label());
    if !contains_chars(t.as_slice(), label.as_slice()) {
        return None;
    }
    let field = after_colon_chars(t.as_slice());
    let after = trim_chars(field.as_slice());
    let ws = words_of(after.as_slice());
    let ghost wsv = words(trim(after_colon(trim(line@))));
    let mut k: usize = 0;
    assert(wsv.skip(0) =~= wsv);
    while k < ws.len()
        invariant
            k <= ws@.len(),
            holds_seqs(ws@, wsv),
            first_dotted_word(wsv) == first_dotted_word(wsv.skip(k as int)),
        decreases ws@.len() - k,
    {
        assert(wsv.skip(k as int).drop_first() =~= wsv.skip(k + 1));
        assert(wsv.skip(k as int)[0] == wsv[k as int]);
        assert(ws@[k as int]@ == wsv[k as int]);
        if count_of(ws[k].as_slice(), '.') == 3 {
            let raw = ip_prefix_chars(ws[k].as_slice());
            return keep_usable_exec(parse_ipv4(raw.as_slice()));
        }
        k = k + 1;
    }
    None
}

/// The address that one `ifconfig` line shows.
pub fn ifconfig_line_address(line: &[char]) -> (r: Option<Ipv4>)
    ensures
        r == ifconfig_line_ip(line@),
{
    let t = trim_chars(line);
    let prefix = vec!['i', 'n', 'e', 't', ' '];
    if t.len() < 5 || !occurs_at(t.as_slice(), 0, prefix.as_slice()) {
        proof {
            if t@.len() >= 5 {
                assert(t@.subrange(0, 5) =~= t@.take(5));
                assert(prefix@ =~= inet_prefix());
            }
        }
        return None;
    }
    assert(t@.subrange(0, 5) =~= t@.take(5));
    assert(prefix@ =~= inet_prefix());
    let rest = copy_range(t.as_slice(), 5, t.len());
    assert(rest@ =~= t@.skip(5));
    let ws = words_of(rest.as_slice());
    if ws.len() >= 1 {
        keep_usable_exec(parse_ipv4(ws[0].as_slice()))
    } else {
        None
    }
}

/// The address that one `ip -o -4 addr show` line shows.
#[verifier::loop_isolation(false)]
pub fn ip_addr_line_address(line: &[char]) -> (r: Option<Ipv4>)
    ensures
        r == ip_addr_line_ip(line@),
{
    let ws = words_of(line);
    let ghost wsv = words(line@);
    let inet = vec!['i', 'n', 'e', 't'];
    assert(inet@ =~= inet_word());
    let mut k: usize = 0;
    assert(wsv.skip(0) =~= wsv);
    while k < ws.len()
        invariant
            k <= ws@.len(),
            holds_seqs(ws@, wsv),
            inet@ == inet_word(),
            word_after_inet(wsv) == word_after_inet(wsv.skip(k as int)),
        decreases ws@.len() - k,
    {
        assert(wsv.skip(k as int).drop_first() =~= wsv.skip(k + 1));
        assert(wsv.skip(k as int)[0] == wsv[k as int]);
        assert(ws@[k as int]@ == wsv[k as int]);
        let w = ws[k].as_slice();
        if w.len() == 4 && occurs_at(w, 0, inet.as_slice()) {
            assert(w@.subrange(0, 4) =~= w@);
            if k + 1 < ws.len() {
                assert(ws@[k + 1]@ == wsv[k + 1]);
                let parts = split_chars(ws[k + 1].as_slice(), '/');
                proof {
                    lemma_split_nonempty(wsv[k + 1], '/');
                }
                return keep_usable_exec(parse_ipv4(parts[0].as_slice()));
            }
            return None;
        }
        proof {
            if w@.len() == 4 {
                assert(w@.subrange(0, 4) =~= w@);
            }
        }
        k = k + 1;
    }
    None
}

/// The address that `ipconfig` output shows first, as text.
#[verifier::loop_isolation(false)]
pub fn ipv4_from_ipconfig(out: &str) -> (r: Option<String>)
    ensures
        text_matches(r, ipconfig_ip(out@)),
{
    let cs = chars_of(out);
    let lines = split_chars(cs.as_slice(), '\n');
    let ghost ls = lines_of(out@);
    let ghost f = |l: Seq<char>| ipconfig_line_ip(l);
    let mut i: usize = 0;
    assert(ls.skip(0) =~= ls);
    while i < lines.len()
        invariant
            i <= lines@.len(),
            holds_seqs(lines@, ls),
            first_ip(ls, f) == first_ip(ls.skip(i as int), f),
        decreases lines@.len() - i,
    {
        assert(ls.skip(i as int).drop_first() =~= ls.skip(i + 1));
        assert(ls.skip(i as int)[0] == ls[i as int]);
        assert(lines@[i as int]@ == ls[i as int]);
        assert(f(ls[i as int]) == ipconfig_line_ip(ls[i as int]));
        if let Some(ip) = ipconfig_line_address(lines[i].as_slice()) {
            return Some(format_ipv4(ip));
        }
        i = i + 1;
    }
    None
}

/// The address that `ifconfig <interface>` output shows first, as text.
#[verifier::loop_isolation(false)]
pub fn ipv4_from_ifconfig(out: &str) -> (r: Option<String>)
    ensures
        text_matches(r, ifconfig_ip(out@)),
{
    let cs = chars_of(out);
    let lines = split_chars(cs.as_slice(), '\n');
    let ghost ls = lines_of(out@);
    let ghost f = |l: Seq<char>| ifconfig_line_ip(l);
    let mut i: usize = 0;
    assert(ls.skip(0) =~= ls);
    while i < lines.len()
        invariant
            i <= lines@.len(),
            holds_seqs(lines@, ls),
            first_ip(ls, f) == first_ip(ls.skip(i as int), f),
        decreases lines@.len() - i,
    {
        assert(ls.skip(i as int).drop_first() =~= ls.skip(i + 1));
        assert(ls.skip(i as int)[0] == ls[i as int]);
        assert(lines@[i as int]@ == ls[i as int]);
        assert(f(ls[i as int]) == ifconfig_line_ip(ls[i as int]));
        if let Some(ip) = ifconfig_line_address(lines[i].as_slice()) {
            return Some(format_ipv4(ip));
        }
        i = i + 1;
    }
    None
}

/// The address that `ip -o -4 addr show` output shows first, as text.
#[verifier::loop_isolation(false)]
pub fn ipv4_from_ip_addr(out: &str) -> (r: Option<String>)
    ensures
        text_matches(r, ip_addr_ip(out@)),
{
    let cs = chars_of(out);
    let lines = split_chars(cs.as_slice(), '\n');
    let ghost ls = lines_of(out@);
    let ghost f = |l: Seq<char>| ip_addr_line_ip(l);
    let mut i: usize = 0;
    assert(ls.skip(0) =~= ls);
    while i < lines.len()
        invariant
            i <= lines@.len(),
            holds_seqs(lines@, ls),
            first_ip(ls, f) == first_ip(ls.skip(i as int), f),
        decreases lines@.len() - i,
    {
        assert(ls.skip(i as int).drop_first() =~= ls.skip(i + 1));
        assert(ls.skip(i as int)[0] == ls[i as int]);
        assert(lines@[i as int]@ == ls[i as int]);
        assert(f(ls[i as int]) == ip_addr_line_ip(ls[i as int]));
        if let Some(ip) = ip_addr_line_address(lines[i].as_slice()) {
            return Some(format_ipv4(ip));
        }
        i = i + 1;
    }
    None
}

/// Whatever a line reader only reports usable addresses for, the first one
/// found in any output is usable.
pub proof fn lemma_first_ip_usable(lines: Seq<Seq<char>>, f: spec_fn(Seq<char>) -> Option<Ipv4>)
    requires
        forall|l: Seq<char>| (#[trigger] f(l)) is Some ==> usable(f(l)->0),
    ensures
        first_ip(lines, f) is Some ==> usable(first_ip(lines, f)->0),
    decreases lines.len(),
{
    if lines.len() > 0 {
        lemma_first_ip_usable(lines.drop_first(), f);
    }
}

/// The address detected from any tool's output is never a loopback or
/// link-local address.
pub proof fn lemma_detected_address_usable(out: Seq<char>)
    ensures
        ipconfig_ip(out) is Some ==> usable(ipconfig_ip(out)->0),
        ifconfig_ip(out) is Some ==> usable(ifconfig_ip(out)->0),
        ip_addr_ip(out) is Some ==> usable(ip_addr_ip(out)->0),
{
    lemma_first_ip_usable(lines_of(out), |l: Seq<char>| ipconfig_line_ip(l));
    lemma_first_ip_usable(lines_of(out), |l: Seq<char>| ifconfig_line_ip(l));
    lemma_first_ip_usable(lines_of(out), |l: Seq<char>| ip_addr_line_ip(l));
}

/// The interfaces worth asking `ifconfig` about: every listed name but the
/// loopback ones (`lo0`, `lo`), in list order.
pub open spec fn probe_interfaces(names: Seq<Seq<char>>) -> Seq<Seq<char>>
    decreases names.len(),
{
    if names.len() == 0 {
        Seq::<Seq<char>>::empty()
    } else {
        let prev = probe_interfaces(names.drop_last());
        let n = names.last();
        if n == seq!['l', 'o', '0'] || n == seq!['l', 'o'] {
            prev
        } else {
            prev.push(n)
        }
    }
}

/// The interfaces of an `ifconfig -l` listing to look up, in order.
#[verifier::loop_isolation(false)]
pub fn interfaces_to_probe(list: &str) -> (r: Vec<String>)
    ensures
        r@.len() == probe_interfaces(words(list@)).len(),
        forall|i: int| 0 <= i < r@.len() ==> #[trigger] r@[i]@ == probe_interfaces(words(list@))[i],
{
    let cs = chars_of(list);
    let ws = words_of(cs.as_slice());
    let ghost wsv = words(list@);
    let lo0 = vec!['l', 'o', '0'];
    let lo = vec!['l', 'o'];
    assert(lo0@ =~= seq!['l', 'o', '0']);
    assert(lo@ =~= seq!['l', 'o']);
    let mut r: Vec<String> = Vec::new();
    let mut i: usize = 0;
    assert(wsv.take(0) =~= Seq::<Seq<char>>::empty());
    while i < ws.len()
        invariant
            i <= ws@.len(),
            holds_seqs(ws@, wsv),
            r@.len() == probe_interfaces(wsv.take(i as int)).len(),
            forall|k: int| 0 <= k < r@.len() ==> #[trigger] r@[k]@ == probe_interfaces(wsv.take(i as int))[k],
        decreases ws@.len() - i,
    {
        assert(wsv.take(i + 1).drop_last() =~= wsv.take(i as int));
        assert(wsv.take(i + 1).last() == wsv[i as int]);
        assert(ws@[i as int]@ == wsv[i as int]);
        let w = ws[i].as_slice();
        let is_lo0 = w.len() == 3 && occurs_at(w, 0, lo0.as_slice());
        let is_lo = w.len() == 2 && occurs_at(w, 0, lo.as_slice());
        assert(w@.len() == 3 ==> w@.subrange(0, 3) =~= w@);
        assert(w@.len() == 2 ==> w@.subrange(0, 2) =~= w@);
        if !is_lo0 && !is_lo {
            r.push(crate::text::string_from_chars(w));
        }
        i = i + 1;
    }
    assert(wsv.take(ws@.len() as int) =~= wsv);
    r
}

/// The address a connected socket reports, as text, when it is no loopback
/// address.
pub fn fallback_address_text(ip: Ipv4) -> (r: Option<String>)
    ensures
        spec_is_loopback(ip) ==> r is None,
        !spec_is_loopback(ip) ==> r is Some && r->0@ == ipv4_text(ip),
{
    if is_loopback(ip) {
        None
    } else {
        Some(format_ipv4(ip))
    }
}

/// The address reported when no LAN address is found: `127.0.0.1`.
pub fn loopback_fallback() -> (r: String)
    ensures
        r@ == ipv4_text(Ipv4(127, 0, 0, 1)),
{
    format_ipv4(Ipv4(127, 0, 0, 1))
}

/// Among lines, the address reported is the one of the earliest line that
/// shows one: when line `k` shows an address and no line before it does,
/// that address is the result.
pub proof fn lemma_first_ip_earliest(lines: Seq<Seq<char>>, f: spec_fn(Seq<char>) -> Option<Ipv4>, k: int)
    requires
        0 <= k < lines.len(),
        f(lines[k]) is Some,
        forall|j: int| 0 <= j < k ==> (#[trigger] f(lines[j])) is None,
    ensures
        first_ip(lines, f) == f(lines[k]),
    decreases k,
{
    if k > 0 {
        let rest = lines.drop_first();
        assert forall|j: int| 0 <= j < k - 1 implies (#[trigger] f(rest[j])) is None by {
            assert(rest[j] == lines[j + 1]);
        }
        assert(f(lines[0]) is None);
        lemma_first_ip_earliest(rest, f, k - 1);
    }
}

/// When no line shows an address, none is reported.
pub proof fn lemma_first_ip_none(lines: Seq<Seq<char>>, f: spec_fn(Seq<char>) -> Option<Ipv4>)
    requires
        forall|j: int| 0 <= j < lines.len() ==> (#[trigger] f(lines[j])) is None,
    ensures
        first_ip(lines, f) is None,
    decreases lines.len(),
{
    if lines.len() > 0 {
        let rest = lines.drop_first();
        assert forall|j: int| 0 <= j < rest.len() implies (#[trigger] f(rest[j])) is None by {
            assert(rest[j] == lines[j + 1]);
        }
        assert(f(lines[0]) is None);
        lemma_first_ip_none(rest, f);
    }
}

/// Output that starts with one line (no `\n` in it) and goes on after a
/// `\n` is split into that line followed by the lines of the rest.
pub proof fn lemma_lines_of_first_and_rest(first: Seq<char>, rest: Seq<char>)
    requires
        forall|i: int| 0 <= i < first.len() ==> first[i] != '\n',
    ensures
        lines_of(first + seq!['\n'] + rest) == seq![first] + lines_of(rest),
{
    lemma_split_concat(first, rest, '\n');
    lemma_split_without_sep(first, '\n');
}

/// In `ip -o -4 addr show` output the address reported is that of the
/// earliest line that shows a usable one; with no such line, none.
pub proof fn lemma_ip_addr_earliest_line(out: Seq<char>, k: int)
    ensures
        0 <= k < lines_of(out).len() && ip_addr_line_ip(lines_of(out)[k]) is Some && (forall|j: int|
            0 <= j < k ==> (#[trigger] ip_addr_line_ip(lines_of(out)[j])) is None) ==> ip_addr_ip(out)
            == ip_addr_line_ip(lines_of(out)[k]),
        (forall|j: int| 0 <= j < lines_of(out).len() ==> (#[trigger] ip_addr_line_ip(lines_of(out)[j])) is None)
            ==> ip_addr_ip(out) is None,
{
    let f = |l: Seq<char>| ip_addr_line_ip(l);
    let ls = lines_of(out);
    if 0 <= k < ls.len() && ip_addr_line_ip(ls[k]) is Some && (forall|j: int|
        0 <= j < k ==> (#[trigger] ip_addr_line_ip(ls[j])) is None) {
        assert forall|j: int| 0 <= j < k implies (#[trigger] f(ls[j])) is None by {
            assert(ip_addr_line_ip(ls[j]) is None);
        }
        lemma_first_ip_earliest(ls, f, k);
    }
    if forall|j: int| 0 <= j < ls.len() ==> (#[trigger] ip_addr_line_ip(ls[j])) is None {
        assert forall|j: int| 0 <= j < ls.len() implies (#[trigger] f(ls[j])) is None by {
            assert(ip_addr_line_ip(ls[j]) is None);
        }
        lemma_first_ip_none(ls, f);
    }
}

/// In `ipconfig` output the address reported is that of the earliest line
/// that shows a usable one; with no such line, none.
pub proof fn lemma_ipconfig_earliest_line(out: Seq<char>, k: int)
    ensures
        0 <= k < lines_of(out).len() && ipconfig_line_ip(lines_of(out)[k]) is Some && (forall|j: int|
            0 <= j < k ==> (#[trigger] ipconfig_line_ip(lines_of(out)[j])) is None) ==> ipconfig_ip(out)
            == ipconfig_line_ip(lines_of(out)[k]),
        (forall|j: int| 0 <= j < lines_of(out).len() ==> (#[trigger] ipconfig_line_ip(lines_of(out)[j])) is None)
            ==> ipconfig_ip(out) is None,
{
    let f = |l: Seq<char>| ipconfig_line_ip(l);
    let ls = lines_of(out);
    if 0 <= k < ls.len() && ipconfig_line_ip(ls[k]) is Some && (forall|j: int|
        0 <= j < k ==> (#[trigger] ipconfig_line_ip(ls[j])) is None) {
        assert forall|j: int| 0 <= j < k implies (#[trigger] f(ls[j])) is None by {
            assert(ipconfig_line_ip(ls[j]) is None);
        }
        lemma_first_ip_earliest(ls, f, k);
    }
    if forall|j: int| 0 <= j < ls.len() ==> (#[trigger] ipconfig_line_ip(ls[j])) is None {
        assert forall|j: int| 0 <= j < ls.len() implies (#[trigger] f(ls[j])) is None by {
            assert(ipconfig_line_ip(ls[j]) is None);
        }
        lemma_first_ip_none(ls, f);
    }
}

/// In `ifconfig` output the address reported is that of the earliest line
/// that shows a usable one; with no such line, none.
pub proof fn lemma_ifconfig_earliest_line(out: Seq<char>, k: int)
    ensures
        0 <= k < lines_of(out).len() && ifconfig_line_ip(lines_of(out)[k]) is Some && (forall|j: int|
            0 <= j < k ==> (#[trigger] ifconfig_line_ip(lines_of(out)[j])) is None) ==> ifconfig_ip(out)
            == ifconfig_line_ip(lines_of(out)[k]),
        (forall|j: int| 0 <= j < lines_of(out).len() ==> (#[trigger] ifconfig_line_ip(lines_of(out)[j])) is None)
            ==> ifconfig_ip(out) is None,
{
    let f = |l: Seq<char>| ifconfig_line_ip(l);
    let ls = lines_of(out);
    if 0 <= k < ls.len() && ifconfig_line_ip(ls[k]) is Some && (forall|j: int|
        0 <= j < k ==> (#[trigger] ifconfig_line_ip(ls[j])) is None) {
        assert forall|j: int| 0 <= j < k implies (#[trigger] f(ls[j])) is None by {
            assert(ifconfig_line_ip(ls[j]) is None);
        }
        lemma_first_ip_earliest(ls, f, k);
    }
    if forall|j: int| 0 <= j < ls.len() ==> (#[trigger] ifconfig_line_ip(ls[j])) is None {
        assert forall|j: int| 0 <= j < ls.len() implies (#[trigger] f(ls[j])) is None by {
            assert(ifconfig_line_ip(ls[j]) is None);
        }
        lemma_first_ip_none(ls, f);
    }
}

/// Reading output line by line: when the first line (no `\n` in it) shows a
/// usable address, that is the result, whatever follows; when it shows
/// none, the result is that of the rest of the output.
pub proof fn lemma_first_line_then_rest(first: Seq<char>, rest: Seq<char>)
    requires
        forall|i: int| 0 <= i < first.len() ==> first[i] != '\n',
    ensures
        ip_addr_ip(first + seq!['\n'] + rest) == match ip_addr_line_ip(first) {
            Some(a) => Some(a),
            None => ip_addr_ip(rest),
        },
        ipconfig_ip(first + seq!['\n'] + rest) == match ipconfig_line_ip(first) {
            Some(a) => Some(a),
            None => ipconfig_ip(rest),
        },
        ifconfig_ip(first + seq!['\n'] + rest) == match ifconfig_line_ip(first) {
            Some(a) => Some(a),
            None => ifconfig_ip(rest),
        },
{
    lemma_lines_of_first_and_rest(first, rest);
    let ls = lines_of(first + seq!['\n'] + rest);
    assert(ls[0] == first);
    assert(ls.drop_first() =~= lines_of(rest));
}

} // verus!
