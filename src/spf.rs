//! Sender Policy Framework: the policy a record states, the walk along its
//! `include:` chain, and the match of the peer's address against the
//! networks that the records list.

use vstd::prelude::*;

verus! {

/// The policy that an SPF record states in its last word.
#[derive(Debug, Clone, Copy, PartialEq, Eq, Structural)]
pub enum SpfPolicy {
    Pass,
    Fail,
    SoftFail,
    Neutral,
    /// The last word names none of the `all` forms.
    NoPolicy,
}

impl Default for SpfPolicy {
    fn default() -> (r: SpfPolicy)
        ensures
            r == SpfPolicy::Fail,
    {
        SpfPolicy::Fail
    }
}

/// White space as Unicode defines it (the `White_Space` property), which
/// separates the words of a record.
pub open spec fn is_space(c: char) -> bool {
    let u = c as u32;
    (0x9 <= u <= 0xd) || u == 0x20 || u == 0x85 || u == 0xa0 || u == 0x1680 || (0x2000 <= u
        <= 0x200a) || u == 0x2028 || u == 0x2029 || u == 0x202f || u == 0x205f || u == 0x3000
}

/// The words of `s` from position `i` on, where the word being read began at
/// `start` (`start == i` when none is being read).
pub open spec fn text_words_from(s: Seq<char>, i: int, start: int) -> Seq<Seq<char>>
    decreases s.len() - i,
{
    if i >= s.len() {
        if start < i {
            seq![s.subrange(start, i)]
        } else {
            seq![]
        }
    } else if is_space(s[i]) {
        let rest = text_words_from(s, i + 1, i + 1);
        if start < i {
            seq![s.subrange(start, i)] + rest
        } else {
            rest
        }
    } else {
        text_words_from(s, i + 1, start)
    }
}

/// The words of `s`: its maximal runs of characters other than white space, in order.
pub open spec fn text_words(s: Seq<char>) -> Seq<Seq<char>> {
    text_words_from(s, 0, 0)
}

/// The policy that a record's last word names.
pub open spec fn policy_word(w: Seq<char>) -> SpfPolicy {
    if w == "+all"@ || w == "all"@ {
        SpfPolicy::Pass
    } else if w == "-all"@ {
        SpfPolicy::Fail
    } else if w == "~all"@ {
        SpfPolicy::SoftFail
    } else if w == "?all"@ {
        SpfPolicy::Neutral
    } else {
        SpfPolicy::NoPolicy
    }
}

/// The policy of a record: that of its last word, none when it has no word.
pub open spec fn record_policy(r: Seq<char>) -> SpfPolicy {
    let ws = text_words(r);
    if ws.len() == 0 {
        SpfPolicy::NoPolicy
    } else {
        policy_word(ws.last())
    }
}

/// Whether `c` is white space.
fn space_char(c: char) -> (r: bool)
    ensures
        r == is_space(c),
{
    let u = c as u32;
    (0x9 <= u && u <= 0xd) || u == 0x20 || u == 0x85 || u == 0xa0 || u == 0x1680 || (0x2000 <= u
        && u <= 0x200a) || u == 0x2028 || u == 0x2029 || u == 0x202f || u == 0x205f || u == 0x3000
}

/// The view of a list of words.
pub open spec fn texts(v: Seq<String>) -> Seq<Seq<char>> {
    v.map_values(|w: String| w@)
}

/// Splits `s` into its words, at white space.
pub fn split_words(s: &str) -> (r: Vec<String>)
    ensures
        texts(r@) == text_words(s@),
{
    let ghost t = s@;
    let n = s.unicode_len();
    let mut out: Vec<String> = Vec::new();
    let mut i: usize = 0;
    let mut start: usize = 0;
    while i < n
        invariant
            t == s@,
            n == t.len(),
            start <= i <= n,
            texts(out@) + text_words_from(t, i as int, start as int) == text_words(t),
        decreases n - i,
    {
        if space_char(s.get_char(i)) {
            if start < i {
                let ghost before = out@;
                out.push(s.substring_char(start, i).to_owned());
                assert(texts(out@) =~= texts(before) + seq![t.subrange(start as int, i as int)]);
            }
            i = i + 1;
            start = i;
        } else {
            i = i + 1;
        }
    }
    if start < i {
        let ghost before = out@;
        out.push(s.substring_char(start, i).to_owned());
        assert(texts(out@) =~= texts(before) + seq![t.subrange(start as int, i as int)]);
    }
    out
}

/// Whether `w` is the text `lit`.
fn is_text(w: &String, lit: &str) -> (r: bool)
    ensures
        r == (w@ == lit@),
{
    *w == String::from_str(lit)
}

/// The policy that the last word of `record` names: `+all` or `all` pass,
/// `-all` fails, `~all` soft-fails, `?all` is neutral, anything else (or no
/// word at all) names no policy.
pub fn determine_spf_policy(record: &str) -> (r: SpfPolicy)
    ensures
        r == record_policy(record@),
{
    let ws = split_words(record);
    let n = ws.len();
    if n == 0 {
        return SpfPolicy::NoPolicy;
    }
    let w = &ws[n - 1];
    assert(w@ == text_words(record@).last());
    if is_text(w, "+all") || is_text(w, "all") {
        SpfPolicy::Pass
    } else if is_text(w, "-all") {
        SpfPolicy::Fail
    } else if is_text(w, "~all") {
        SpfPolicy::SoftFail
    } else if is_text(w, "?all") {
        SpfPolicy::Neutral
    } else {
        SpfPolicy::NoPolicy
    }
}

/// The networks that records list, each with the policy of its record, in
/// the order they were first listed.
pub type Entries = Seq<(Seq<char>, SpfPolicy)>;

/// The view of the collected networks.
pub open spec fn entries_view(v: Seq<(String, SpfPolicy)>) -> Entries {
    v.map_values(|e: (String, SpfPolicy)| (e.0@, e.1))
}

/// No network is listed twice.
pub open spec fn keys_unique(es: Entries) -> bool {
    forall|i: int, j: int| 0 <= i < j < es.len() ==> (#[trigger] es[i]).0 != (#[trigger] es[j]).0
}

/// Records network `k` with policy `p`: a network listed before takes the new
/// policy in its place, a new one goes last.
pub open spec fn put(es: Entries, k: Seq<char>, p: SpfPolicy) -> Entries {
    if exists|i: int| 0 <= i < es.len() && (#[trigger] es[i]).0 == k {
        let i = choose|i: int| 0 <= i < es.len() && (#[trigger] es[i]).0 == k;
        es.update(i, (k, p))
    } else {
        es.push((k, p))
    }
}

/// `w` begins with `p`.
pub open spec fn has_prefix(w: Seq<char>, p: Seq<char>) -> bool {
    w.len() >= p.len() && w.subrange(0, p.len() as int) == p
}

/// `w` holds `p` somewhere.
pub open spec fn has_infix(w: Seq<char>, p: Seq<char>) -> bool {
    exists|i: int| 0 <= i && i + p.len() <= w.len() && #[trigger] w.subrange(i, i + p.len()) == p
}

/// Goes through the words of a record with policy `pol`: `ip4:` and `ip6:`
/// words list a network; the first `include:` word stops the walk and names
/// the domain to follow.
pub open spec fn scan_words(ws: Seq<Seq<char>>, pol: SpfPolicy, es: Entries) -> (Entries, Option<Seq<char>>)
    decreases ws.len(),
{
    if ws.len() == 0 {
        (es, None)
    } else {
        let w = ws[0];
        if has_prefix(w, "include:"@) {
            (es, Some(w.subrange("include:"@.len() as int, w.len() as int)))
        } else if has_prefix(w, "ip4:"@) || has_prefix(w, "ip6:"@) {
            scan_words(ws.subrange(1, ws.len() as int), pol, put(es, w.subrange(4, w.len() as int), pol))
        } else {
            scan_words(ws.subrange(1, ws.len() as int), pol, es)
        }
    }
}

/// Goes through the TXT records of a domain: those that hold `v=spf1` are
/// scanned in turn, until one names a domain to include.
pub open spec fn scan_records(rs: Seq<Seq<char>>, es: Entries) -> (Entries, Option<Seq<char>>)
    decreases rs.len(),
{
    if rs.len() == 0 {
        (es, None)
    } else {
        let rest = rs.subrange(1, rs.len() as int);
        if has_infix(rs[0], "v=spf1"@) {
            let (es2, inc) = scan_words(text_words(rs[0]), record_policy(rs[0]), es);
            if inc is Some {
                (es2, inc)
            } else {
                scan_records(rest, es2)
            }
        } else {
            scan_records(rest, es)
        }
    }
}

/// Whether `w` begins with `p`.
fn starts_with_text(w: &str, p: &str) -> (r: bool)
    ensures
        r == has_prefix(w@, p@),
{
    let n = w.unicode_len();
    let m = p.unicode_len();
    if n < m {
        return false;
    }
    let mut i: usize = 0;
    while i < m
        invariant
            n == w@.len(),
            m == p@.len(),
            m <= n,
            i <= m,
            forall|k: int| 0 <= k < i ==> w@[k] == p@[k],
        decreases m - i,
    {
        if w.get_char(i) != p.get_char(i) {
            assert(w@.subrange(0, m as int)[i as int] != p@[i as int]);
            return false;
        }
        i = i + 1;
    }
    assert(w@.subrange(0, m as int) =~= p@);
    true
}

/// Whether `w` holds `p` somewhere.
fn contains_text(w: &str, p: &str) -> (r: bool)
    ensures
        r == has_infix(w@, p@),
{
    let n = w.unicode_len();
    let m = p.unicode_len();
    if n < m {
        return false;
    }
    let mut i: usize = 0;
    while i <= n - m
        invariant
            n == w@.len(),
            m == p@.len(),
            m <= n,
            i <= n - m + 1,
            forall|k: int| 0 <= k < i ==> #[trigger] w@.subrange(k, k + m) != p@,
        decreases n - m + 1 - i,
    {
        let mut j: usize = 0;
        let mut same = true;
        while j < m
            invariant
                n == w@.len(),
                m == p@.len(),
                i + m <= n,
                j <= m,
                same <==> forall|k: int| 0 <= k < j ==> w@[i + k] == p@[k],
            decreases m - j,
        {
            if w.get_char(i + j) != p.get_char(j) {
                same = false;
            }
            j = j + 1;
        }
        if same {
            assert(w@.subrange(i as int, i + m) =~= p@);
            return true;
        }
        assert(w@.subrange(i as int, i + m) != p@) by {
            let k = choose|k: int| 0 <= k < m && w@[i + k] != p@[k];
            assert(w@.subrange(i as int, i + m)[k] != p@[k]);
        }
        i = i + 1;
    }
    assert forall|k: int| 0 <= k && k + p@.len() <= w@.len() implies #[trigger] w@.subrange(k, k + p@.len()) != p@ by {
        assert(k < i);
    }
    false
}

/// Records network `key` with policy `pol` in `entries`.
fn put_entry(entries: &mut Vec<(String, SpfPolicy)>, key: String, pol: SpfPolicy)
    requires
        keys_unique(entries_view(old(entries)@)),
    ensures
        keys_unique(entries_view(final(entries)@)),
        entries_view(final(entries)@) == put(entries_view(old(entries)@), key@, pol),
{
    let ghost es = entries_view(entries@);
    let mut i: usize = 0;
    while i < entries.len()
        invariant
            entries@ == old(entries)@,
            es == entries_view(entries@),
            keys_unique(es),
            i <= entries@.len(),
            forall|k: int| 0 <= k < i ==> (#[trigger] es[k]).0 != key@,
        decreases entries@.len() - i,
    {
        if entries[i].0 == key {
            proof {
                let c = choose|c: int| 0 <= c < es.len() && (#[trigger] es[c]).0 == key@;
                assert(es[i as int].0 == key@);
                if c != i {
                    if c < i {
                        assert(es[c].0 != es[i as int].0);
                    } else {
                        assert(es[i as int].0 != es[c].0);
                    }
                }
            }
            entries.set(i, (key, pol));
            assert(entries_view(entries@) =~= es.update(i as int, (key@, pol)));
            return;
        }
        i = i + 1;
    }
    entries.push((key, pol));
    assert(entries_view(entries@) =~= es.push((key@, pol)));
}

/// Goes through the words of one record: see `scan_words`.
fn scan_record_words(
    entries: &mut Vec<(String, SpfPolicy)>,
    ws: &Vec<String>,
    pol: SpfPolicy,
) -> (r: Option<String>)
    requires
        keys_unique(entries_view(old(entries)@)),
    ensures
        keys_unique(entries_view(final(entries)@)),
        (entries_view(final(entries)@), match r {
            Some(d) => Some(d@),
            None => None,
        }) == scan_words(texts(ws@), pol, entries_view(old(entries)@)),
{
    let ghost all = texts(ws@);
    let redirect = "include:";
    let ip4 = "ip4:";
    let ip6 = "ip6:";
    proof {
        reveal_strlit("ip4:");
        reveal_strlit("ip6:");
        assert(ip4@.len() == 4 && ip6@.len() == 4);
        assert(all.subrange(0, all.len() as int) =~= all);
    }
    let mut k: usize = 0;
    while k < ws.len()
        invariant
            all == texts(ws@),
            k <= ws@.len(),
            ip4@.len() == 4,
            ip6@.len() == 4,
            ip4@ == "ip4:"@,
            ip6@ == "ip6:"@,
            redirect@ == "include:"@,
            keys_unique(entries_view(entries@)),
            scan_words(all, pol, entries_view(old(entries)@)) == scan_words(
                all.subrange(k as int, all.len() as int),
                pol,
                entries_view(entries@),
            ),
        decreases ws@.len() - k,
    {
        let w = ws[k].as_str();
        let ghost rest = all.subrange(k as int, all.len() as int);
        assert(rest[0] == w@);
        assert(rest.subrange(1, rest.len() as int) =~= all.subrange(k + 1, all.len() as int));
        if starts_with_text(w, redirect) {
            return Some(w.substring_char(redirect.unicode_len(), w.unicode_len()).to_owned());
        }
        if starts_with_text(w, ip4) || starts_with_text(w, ip6) {
            put_entry(entries, w.substring_char(4, w.unicode_len()).to_owned(), pol);
        }
        k = k + 1;
    }
    assert(all.subrange(k as int, all.len() as int) =~= Seq::<Seq<char>>::empty());
    None
}

/// Goes through the TXT records of one domain: see `scan_records`. Returns
/// the domain to include next, if a record names one.
pub fn scan_txt_records(entries: &mut Vec<(String, SpfPolicy)>, records: &Vec<String>) -> (r: Option<String>)
    requires
        keys_unique(entries_view(old(entries)@)),
    ensures
        keys_unique(entries_view(final(entries)@)),
        (entries_view(final(entries)@), match r {
            Some(d) => Some(d@),
            None => None,
        }) == scan_records(texts(records@), entries_view(old(entries)@)),
{
    let ghost all = texts(records@);
    assert(all.subrange(0, all.len() as int) =~= all);
    let mut k: usize = 0;
    while k < records.len()
        invariant
            all == texts(records@),
            k <= records@.len(),
            keys_unique(entries_view(entries@)),
            scan_records(all, entries_view(old(entries)@)) == scan_records(
                all.subrange(k as int, all.len() as int),
                entries_view(entries@),
            ),
        decreases records@.len() - k,
    {
        let rec = records[k].as_str();
        let ghost rest = all.subrange(k as int, all.len() as int);
        assert(rest[0] == rec@);
        assert(rest.subrange(1, rest.len() as int) =~= all.subrange(k + 1, all.len() as int));
        if contains_text(rec, "v=spf1") {
            let pol = determine_spf_policy(rec);
            let ws = split_words(rec);
            let inc = scan_record_words(entries, &ws, pol);
            if inc.is_some() {
                return inc;
            }
        }
        k = k + 1;
    }
    assert(all.subrange(k as int, all.len() as int) =~= Seq::<Seq<char>>::empty());
    None
}

/// The deepest `include:` that is followed: the lookups are at depths 0 to 10.
pub const MAX_INCLUDE_DEPTH: usize = 10;

/// The walk along a domain's SPF records and the `include:` chain they start.
/// The caller looks up the TXT records of `next` and feeds them back until
/// `next` is `None`.
#[derive(Debug)]
pub struct SpfWalk {
    /// The networks listed so far, each with the policy of its record.
    pub entries: Vec<(String, SpfPolicy)>,
    /// The domain whose TXT records are wanted next; `None` once the walk is over.
    pub next: Option<String>,
    /// How many `include:` steps led to `next`.
    pub depth: usize,
}

impl SpfWalk {
    /// The walk never goes deeper than `MAX_INCLUDE_DEPTH` and lists no network twice.
    pub open spec fn wf(&self) -> bool {
        &&& self.depth <= MAX_INCLUDE_DEPTH
        &&& keys_unique(entries_view(self.entries@))
    }

    /// A walk that starts at `domain`.
    pub fn new(domain: String) -> (w: SpfWalk)
        ensures
            w.wf(),
            w.next == Some(domain),
            w.depth == 0,
            w.entries@.len() == 0,
    {
        SpfWalk { entries: Vec::new(), next: Some(domain), depth: 0 }
    }

    /// Takes the TXT records of `next` (`None` when the lookup failed). The
    /// networks they list are recorded; an `include:` within the depth bound
    /// becomes the next domain, and otherwise the walk is over.
    pub fn feed(&mut self, records: Option<Vec<String>>)
        requires
            old(self).wf(),
            old(self).next is Some,
        ensures
            final(self).wf(),
            match records {
                None => {
                    &&& final(self).next is None
                    &&& final(self).entries@ == old(self).entries@
                    &&& final(self).depth == old(self).depth
                },
                Some(rs) => {
                    let (es, inc) = scan_records(texts(rs@), entries_view(old(self).entries@));
                    &&& entries_view(final(self).entries@) == es
                    &&& if inc is Some && old(self).depth < MAX_INCLUDE_DEPTH {
                        &&& final(self).next matches Some(d) && inc == Some(d@)
                        &&& final(self).depth == old(self).depth + 1
                    } else {
                        &&& final(self).next is None
                        &&& final(self).depth == old(self).depth
                    }
                },
            },
    {
        match records {
            None => {
                self.next = None;
            },
            Some(rs) => {
                let inc = scan_txt_records(&mut self.entries, &rs);
                match inc {
                    Some(d) => {
                        if self.depth < MAX_INCLUDE_DEPTH {
                            self.next = Some(d);
                            self.depth = self.depth + 1;
                        } else {
                            self.next = None;
                        }
                    },
                    None => {
                        self.next = None;
                    },
                }
            },
        }
    }
}

/// An IP address as a number.
#[derive(Debug, Clone, Copy, PartialEq, Eq, Structural)]
pub enum IpAddress {
    V4(u32),
    V6(u128),
}

/// A network: an address and how many of its leading bits are fixed.
#[derive(Debug, Clone, Copy, PartialEq, Eq, Structural)]
pub struct Network {
    pub addr: IpAddress,
    pub prefix: u8,
}

/// The IPv4 mask of a prefix.
pub open spec fn mask_v4(prefix: u8) -> u32 {
    if prefix == 0 {
        0
    } else if prefix >= 32 {
        0xffff_ffff
    } else {
        (0xffff_ffffu32 << ((32 - prefix) as u32)) as u32
    }
}

/// The IPv6 mask of a prefix.
pub open spec fn mask_v6(prefix: u8) -> u128 {
    if prefix == 0 {
        0
    } else if prefix >= 128 {
        0xffff_ffff_ffff_ffff_ffff_ffff_ffff_ffff
    } else {
        (0xffff_ffff_ffff_ffff_ffff_ffff_ffff_ffffu128 << ((128 - prefix) as u128)) as u128
    }
}

/// `ip` lies in network `n`: same family, same leading `prefix` bits.
pub open spec fn in_network(n: Network, ip: IpAddress) -> bool {
    match (n.addr, ip) {
        (IpAddress::V4(a), IpAddress::V4(b)) => b & mask_v4(n.prefix) == a & mask_v4(n.prefix),
        (IpAddress::V6(a), IpAddress::V6(b)) => b & mask_v6(n.prefix) == a & mask_v6(n.prefix),
        _ => false,
    }
}

impl Network {
    /// Whether `ip` lies in this network.
    pub fn contains(&self, ip: IpAddress) -> (r: bool)
        ensures
            r == in_network(*self, ip),
    {
        match (self.addr, ip) {
            (IpAddress::V4(a), IpAddress::V4(b)) => {
                let m: u32 = if self.prefix == 0 {
                    0
                } else if self.prefix >= 32 {
                    0xffff_ffff
                } else {
                    0xffff_ffffu32 << ((32 - self.prefix) as u32)
                };
                b & m == a & m
            },
            (IpAddress::V6(a), IpAddress::V6(b)) => {
                let m: u128 = if self.prefix == 0 {
                    0
                } else if self.prefix >= 128 {
                    0xffff_ffff_ffff_ffff_ffff_ffff_ffff_ffff
                } else {
                    0xffff_ffff_ffff_ffff_ffff_ffff_ffff_ffffu128 << ((128 - self.prefix) as u128)
                };
                b & m == a & m
            },
            _ => false,
        }
    }
}

/// The network that `s` writes, as ipnetwork reads it.
pub uninterp spec fn network_from_text(s: Seq<char>) -> Option<Network>;

/// Relies on ipnetwork's `IpNetwork::from_str`: an IPv4 network (an address
/// with an optional `/prefix` or `/netmask`), else an IPv6 one (an address with
/// an optional `/prefix`); its constructors refuse a prefix longer than the
/// address.
#[verifier::external_body]
fn parse_network(s: &str) -> (r: Option<Network>)
    ensures
        r == network_from_text(s@),
        r matches Some(n) ==> match n.addr {
            IpAddress::V4(_) => n.prefix <= 32,
            IpAddress::V6(_) => n.prefix <= 128,
        },
{
    match s.parse::<ipnetwork::IpNetwork>() {
        Ok(ipnetwork::IpNetwork::V4(n)) => Some(Network { addr: IpAddress::V4(u32::from(n.ip())), prefix: n.prefix() }),
        Ok(ipnetwork::IpNetwork::V6(n)) => Some(Network { addr: IpAddress::V6(u128::from(n.ip())), prefix: n.prefix() }),
        Err(_) => None,
    }
}

/// The networks that the entries write, in order, those that do not parse left out.
pub open spec fn parsed_networks(es: Entries) -> Seq<(Network, SpfPolicy)>
    decreases es.len(),
{
    if es.len() == 0 {
        seq![]
    } else {
        let rest = parsed_networks(es.subrange(1, es.len() as int));
        match network_from_text(es[0].0) {
            Some(n) => seq![(n, es[0].1)] + rest,
            None => rest,
        }
    }
}

/// The verdict for `ip`: it passes with the policy of the first network that
/// holds it; it fails when none does.
pub open spec fn first_match(nets: Seq<(Network, SpfPolicy)>, ip: IpAddress) -> (bool, SpfPolicy)
    decreases nets.len(),
{
    if nets.len() == 0 {
        (false, SpfPolicy::Fail)
    } else if in_network(nets[0].0, ip) {
        (true, nets[0].1)
    } else {
        first_match(nets.subrange(1, nets.len() as int), ip)
    }
}

/// The verdict for `ip` against parsed networks: passed with the policy of the
/// first network that holds it, else failed.
pub fn match_networks(nets: &Vec<(Network, SpfPolicy)>, ip: IpAddress) -> (r: (bool, SpfPolicy))
    ensures
        r == first_match(nets@, ip),
{
    let ghost all = nets@;
    assert(all.subrange(0, all.len() as int) =~= all);
    let mut k: usize = 0;
    while k < nets.len()
        invariant
            all == nets@,
            k <= all.len(),
            first_match(all, ip) == first_match(all.subrange(k as int, all.len() as int), ip),
        decreases all.len() - k,
    {
        let ghost rest = all.subrange(k as int, all.len() as int);
        assert(rest.subrange(1, rest.len() as int) =~= all.subrange(k + 1, all.len() as int));
        if nets[k].0.contains(ip) {
            return (true, nets[k].1);
        }
        k = k + 1;
    }
    (false, SpfPolicy::Fail)
}

/// The verdict of SPF for the peer at `ip`, given the networks that the walk
/// collected: the first that holds `ip` gives its policy, and no match fails.
pub fn spf_verdict(entries: &Vec<(String, SpfPolicy)>, ip: IpAddress) -> (r: (bool, SpfPolicy))
    ensures
        r == first_match(parsed_networks(entries_view(entries@)), ip),
{
    let ghost es = entries_view(entries@);
    let mut nets: Vec<(Network, SpfPolicy)> = Vec::new();
    let mut k: usize = entries.len();
    assert(es.subrange(k as int, es.len() as int) =~= Seq::<(Seq<char>, SpfPolicy)>::empty());
    while k > 0
        invariant
            es == entries_view(entries@),
            k <= es.len(),
            nets@ == parsed_networks(es.subrange(k as int, es.len() as int)),
        decreases k,
    {
        k = k - 1;
        let ghost rest = es.subrange(k as int, es.len() as int);
        assert(rest.subrange(1, rest.len() as int) =~= es.subrange(k + 1, es.len() as int));
        assert(rest[0] == (entries@[k as int].0@, entries@[k as int].1));
        match parse_network(entries[k].0.as_str()) {
            Some(n) => {
                let ghost before = nets@;
                nets.insert(0, (n, entries[k].1));
                assert(nets@ =~= seq![(n, entries@[k as int].1)] + before);
            },
            None => {},
        }
    }
    assert(es.subrange(0, es.len() as int) =~= es);
    match_networks(&nets, ip)
}

} // verus!
