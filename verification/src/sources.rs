use vstd::prelude::*;

use crate::config::ProviderConfig;

use crate::models::address_text;
use crate::text::{
    chars_of, copy_range, decimal, find_char, find_char_index, find_scheme_sep,
    find_scheme_sep_index, is_digit, law_decimal_parses_back, lemma_find_char_at, lemma_find_char_found,
    lemma_split_pieces_lack_sep,
    lemma_no_scheme_sep, lemma_scheme_sep_at, lemma_split_append, lemma_split_no_sep,
    parse_u16_chars, parse_u16_spec, scheme_sep_at, spec_to_lowercase, split_chars, split_on,
    to_lowercase, to_string, trim, trim_chars, is_space, trim_start, trim_end,
};

verus! {

/// A proxy entry read from a source list.
#[derive(Debug, Clone)]
pub struct RawProxy {
    pub ip: String,
    pub port: u16,
    pub protocol: String,
}

/// The mathematical value of a `RawProxy`.
pub struct RawProxyView {
    pub ip: Seq<char>,
    pub port: u16,
    pub protocol: Seq<char>,
}

impl View for RawProxy {
    type V = RawProxyView;

    open spec fn view(&self) -> RawProxyView {
        RawProxyView { ip: self.ip@, port: self.port, protocol: self.protocol@ }
    }
}

/// The value of an optional entry.
pub open spec fn opt_view(o: Option<RawProxy>) -> Option<RawProxyView> {
    match o {
        Some(p) => Some(p@),
        None => None,
    }
}

/// The values of a list of entries.
pub open spec fn list_view(v: Seq<RawProxy>) -> Seq<RawProxyView> {
    v.map_values(|p: RawProxy| p@)
}

/// The protocol given to entries that name none.
pub open spec fn default_protocol() -> Seq<char> {
    "http"@
}

/// The pieces of a proxy line: its IP, its port, and the protocol as the line
/// writes it, if it names one.
pub struct ProxyLineParts {
    pub ip: String,
    pub port: u16,
    pub protocol: Option<String>,
}

/// The mathematical value of `ProxyLineParts`.
pub struct ProxyLinePartsView {
    pub ip: Seq<char>,
    pub port: u16,
    pub protocol: Option<Seq<char>>,
}

impl View for ProxyLineParts {
    type V = ProxyLinePartsView;

    open spec fn view(&self) -> ProxyLinePartsView {
        ProxyLinePartsView {
            ip: self.ip@,
            port: self.port,
            protocol: match self.protocol {
                Some(p) => Some(p@),
                None => None,
            },
        }
    }
}

/// A line of the form `protocol://ip:port`: the protocol is everything before
/// the first "://", the address follows it and is cut at its first ':'.
pub open spec fn split_scheme_form(t: Seq<char>) -> Option<ProxyLinePartsView> {
    match find_scheme_sep(t) {
        None => None,
        Some(i) => {
            let rest = t.skip(i + 3 as int);
            match find_char(rest, ':') {
                None => None,
                Some(j) => match parse_u16_spec(rest.skip(j + 1 as int)) {
                    Some(port) => Some(
                        ProxyLinePartsView {
                            ip: rest.take(j as int),
                            port,
                            protocol: Some(t.take(i as int)),
                        },
                    ),
                    None => None,
                },
            }
        },
    }
}

/// A line of the form `ip:port` or `ip:port:protocol`: the line split at every
/// ':' gives two or three pieces.
pub open spec fn split_colon_form(t: Seq<char>) -> Option<ProxyLinePartsView> {
    let parts = split_on(t, ':');
    if parts.len() == 2 {
        match parse_u16_spec(parts[1]) {
            Some(port) => Some(ProxyLinePartsView { ip: parts[0], port, protocol: None }),
            None => None,
        }
    } else if parts.len() == 3 {
        match parse_u16_spec(parts[1]) {
            Some(port) => Some(ProxyLinePartsView { ip: parts[0], port, protocol: Some(parts[2]) }),
            None => None,
        }
    } else {
        None
    }
}

/// The pieces of one line of a proxy list: the scheme form is tried first
/// where the line holds "://", then the colon forms.
pub open spec fn split_line_spec(t: Seq<char>) -> Option<ProxyLinePartsView> {
    match split_scheme_form(t) {
        Some(q) => Some(q),
        None => split_colon_form(t),
    }
}

/// The entry that the pieces of a line describe: the protocol is lowercased,
/// and is http where the line names none.
pub open spec fn entry_of(q: ProxyLinePartsView) -> RawProxyView {
    RawProxyView {
        ip: q.ip,
        port: q.port,
        protocol: match q.protocol {
            Some(p) => spec_to_lowercase(p),
            None => default_protocol(),
        },
    }
}

/// The entry that one line of a proxy list describes.
pub open spec fn parse_line_spec(t: Seq<char>) -> Option<RawProxyView> {
    match split_line_spec(t) {
        Some(q) => Some(entry_of(q)),
        None => None,
    }
}

/// A trimmed line that is skipped: empty, or a comment starting with '#' or "//".
pub open spec fn is_ignored_line(t: Seq<char>) -> bool {
    ||| t.len() == 0
    ||| t[0] == '#'
    ||| (t.len() >= 2 && t[0] == '/' && t[1] == '/')
}

/// The entries of `lines`, in order: each line is trimmed, ignored lines are
/// skipped, and lines that describe no entry are dropped.
pub open spec fn parse_lines_spec(lines: Seq<Seq<char>>) -> Seq<RawProxyView>
    decreases lines.len(),
{
    if lines.len() == 0 {
        Seq::empty()
    } else {
        let prev = parse_lines_spec(lines.drop_last());
        let t = trim(lines.last());
        if is_ignored_line(t) {
            prev
        } else {
            match parse_line_spec(t) {
                Some(p) => prev.push(p),
                None => prev,
            }
        }
    }
}

/// The entries of a proxy list text. The text is cut at every '\n'; this gives
/// the lines of `str::lines` up to a trailing '\r' on a line and an empty last
/// piece, which trimming and skipping empty lines make no difference of.
pub open spec fn parse_list_spec(content: Seq<char>) -> Seq<RawProxyView> {
    parse_lines_spec(split_on(content, '\n'))
}

fn split_line_chars(t: &Vec<char>) -> (res: Option<ProxyLineParts>)
    ensures
        match res {
            Some(q) => split_line_spec(t@) == Some(q@),
            None => split_line_spec(t@) is None,
        },
{
    if let Some(i) = find_scheme_sep_index(t) {
        let rest = copy_range(t, i + 3, t.len());
        assert(rest@ =~= t@.skip(i + 3));
        if let Some(j) = find_char_index(&rest, ':') {
            let port_text = copy_range(&rest, j + 1, rest.len());
            assert(port_text@ =~= rest@.skip(j + 1));
            if let Some(port) = parse_u16_chars(&port_text) {
                let ip_chars = copy_range(&rest, 0, j);
                assert(ip_chars@ =~= rest@.take(j as int));
                let proto_chars = copy_range(t, 0, i);
                assert(proto_chars@ =~= t@.take(i as int));
                let ip = to_string(&ip_chars);
                let protocol = to_string(&proto_chars);
                return Some(ProxyLineParts { ip, port, protocol: Some(protocol) });
            }
        }
    }
    let parts = split_chars(t, ':');
    if parts.len() == 2 {
        match parse_u16_chars(&parts[1]) {
            Some(port) => Some(ProxyLineParts { ip: to_string(&parts[0]), port, protocol: None }),
            None => None,
        }
    } else if parts.len() == 3 {
        match parse_u16_chars(&parts[1]) {
            Some(port) => Some(
                ProxyLineParts {
                    ip: to_string(&parts[0]),
                    port,
                    protocol: Some(to_string(&parts[2])),
                },
            ),
            None => None,
        }
    } else {
        None
    }
}

/// Cuts one line of a proxy list (already trimmed by the caller) into its IP,
/// port and written protocol. Accepted forms: `protocol://ip:port`, `ip:port`
/// and `ip:port:protocol`.
pub fn split_proxy_line(line: &str) -> (res: Option<ProxyLineParts>)
    ensures
        match res {
            Some(q) => split_line_spec(line@) == Some(q@),
            None => split_line_spec(line@) is None,
        },
{
    let cs = chars_of(line);
    split_line_chars(&cs)
}

impl RawProxy {
    /// The entry that the pieces of a line describe: the written protocol is
    /// lowercased with `str::to_lowercase`, and is "http" where none is written.
    pub fn from_parts(parts: ProxyLineParts) -> (res: RawProxy)
        ensures
            res@ == entry_of(parts@),
    {
        let protocol = match &parts.protocol {
            Some(p) => {
                let cs = chars_of(p.as_str());
                to_lowercase(&cs)
            },
            None => "http".to_owned(),
        };
        RawProxy { ip: parts.ip, port: parts.port, protocol }
    }
}

fn parse_line_chars(t: &Vec<char>) -> (res: Option<RawProxy>)
    ensures
        opt_view(res) == parse_line_spec(t@),
{
    match split_line_chars(t) {
        Some(q) => Some(RawProxy::from_parts(q)),
        None => None,
    }
}

/// Parses one line of a proxy list (already trimmed by the caller). Accepted
/// forms: `protocol://ip:port`, `ip:port` and `ip:port:protocol`; the protocol
/// is lowercased, and is http where the line names none.
pub fn parse_proxy_line(line: &str) -> (res: Option<RawProxy>)
    ensures
        opt_view(res) == parse_line_spec(line@),
{
    let cs = chars_of(line);
    parse_line_chars(&cs)
}

/// Whether the trimmed line `t` is empty or a comment.
fn is_ignored_chars(t: &Vec<char>) -> (res: bool)
    ensures
        res == is_ignored_line(t@),
{
    t.len() == 0 || t[0] == '#' || (t.len() >= 2 && t[0] == '/' && t[1] == '/')
}

/// Parses a proxy list text, one proxy per line. Blank lines and lines that
/// start with '#' or "//" are skipped, as are lines in no accepted form.
pub fn parse_proxy_list(content: &str) -> (res: Vec<RawProxy>)
    ensures
        list_view(res@) == parse_list_spec(content@),
{
    let cs = chars_of(content);
    let lines = split_chars(&cs, '\n');
    let ghost all = split_on(cs@, '\n');
    let mut proxies: Vec<RawProxy> = Vec::new();
    let mut k: usize = 0;
    assert(all.take(0) =~= Seq::<Seq<char>>::empty());
    while k < lines.len()
        invariant
            k <= lines.len(),
            lines.len() == all.len(),
            forall|i: int| 0 <= i < lines.len() ==> (#[trigger] lines[i])@ == all[i],
            list_view(proxies@) == parse_lines_spec(all.take(k as int)),
        decreases lines.len() - k,
    {
        proof {
            assert(all.take(k + 1).drop_last() =~= all.take(k as int));
            assert(all.take(k + 1).last() == lines[k as int]@);
        }
        let t = trim_chars(&lines[k]);
        if !is_ignored_chars(&t) {
            if let Some(p) = parse_line_chars(&t) {
                proxies.push(p);
                assert(list_view(proxies@) =~= parse_lines_spec(all.take(k + 1)));
            }
        }
        k += 1;
    }
    assert(all.take(lines.len() as int) =~= all);
    proxies
}

/// What to do with one configured provider.
#[derive(Debug)]
pub enum SourceLoad {
    /// Read the list in the file `path`; its entries are recorded as coming
    /// from `source`.
    File { path: String, source: String },
    /// Fetch the list at `url`; its entries are recorded as coming from `source`.
    Url { url: String, source: String },
    /// A known provider type without the location it needs: nothing to do.
    NoLocation,
    /// A provider type other than "file" and "url": skipped with a warning.
    UnknownType,
}

/// The load that the provider `p` calls for.
pub open spec fn load_spec(p: ProviderConfig, res: SourceLoad) -> bool {
    if p.provider_type@ == "file"@ {
        match p.path {
            Some(path) => res matches SourceLoad::File { path: lp, source } && lp@ == path@
                && source@ == "file:"@ + path@,
            None => res is NoLocation,
        }
    } else if p.provider_type@ == "url"@ {
        match p.url {
            Some(url) => res matches SourceLoad::Url { url: lu, source } && lu@ == url@
                && source@ == "url:"@ + url@,
            None => res is NoLocation,
        }
    } else {
        res is UnknownType
    }
}

fn labelled(prefix: &str, location: &String) -> (res: String)
    ensures
        res@ == prefix@ + location@,
{
    let mut cs = chars_of(prefix);
    let loc = chars_of(location.as_str());
    let mut k: usize = 0;
    let ghost start = cs@;
    while k < loc.len()
        invariant
            k <= loc.len(),
            cs@ == start + loc@.take(k as int),
        decreases loc.len() - k,
    {
        cs.push(loc[k]);
        k += 1;
        assert(cs@ =~= start + loc@.take(k as int));
    }
    assert(loc@.take(loc.len() as int) =~= loc@);
    to_string(&cs)
}

/// Decides how to load the list of the provider `p`: files by path, remote
/// lists by URL, each with its source label ("file:<path>" or "url:<url>").
pub fn plan_provider(p: &ProviderConfig) -> (res: SourceLoad)
    ensures
        load_spec(*p, res),
        p.provider_type@ == "file"@ && p.path is Some ==> (res matches SourceLoad::File {
            path: lp,
            source,
        } && lp@ == p.path->0@ && source@ == "file:"@ + p.path->0@),
        p.provider_type@ == "url"@ && p.url is Some ==> (res matches SourceLoad::Url {
            url: lu,
            source,
        } && lu@ == p.url->0@ && source@ == "url:"@ + p.url->0@),
        (p.provider_type@ == "file"@ && p.path is None) || (p.provider_type@ == "url"@ && p.url is None)
            ==> (res is NoLocation),
        p.provider_type@ != "file"@ && p.provider_type@ != "url"@ ==> (res is UnknownType),
{
    proof {
        reveal_strlit("file");
        reveal_strlit("url");
        assert("file"@.len() != "url"@.len());
        assert("file"@ != "url"@);
    }
    if p.provider_type == "file".to_owned() {
        match &p.path {
            Some(path) => SourceLoad::File { path: path.clone(), source: labelled("file:", path) },
            None => SourceLoad::NoLocation,
        }
    } else if p.provider_type == "url".to_owned() {
        match &p.url {
            Some(url) => SourceLoad::Url { url: url.clone(), source: labelled("url:", url) },
            None => SourceLoad::NoLocation,
        }
    } else {
        SourceLoad::UnknownType
    }
}

/// The loads of all configured providers, one per provider and in their order.
pub fn plan_sources(providers: &Vec<ProviderConfig>) -> (res: Vec<SourceLoad>)
    ensures
        res.len() == providers.len(),
        forall|i: int| 0 <= i < res.len() ==> load_spec(providers[i], #[trigger] res[i]),
{
    let mut res: Vec<SourceLoad> = Vec::new();
    let mut k: usize = 0;
    while k < providers.len()
        invariant
            k <= providers.len(),
            res.len() == k,
            forall|i: int| 0 <= i < k ==> load_spec(providers[i], #[trigger] res[i]),
        decreases providers.len() - k,
    {
        res.push(plan_provider(&providers[k]));
        k += 1;
    }
    res
}

/// An address written as `ip:port`, as `proxy_address` writes it, reads back
/// as a line in the `ip:port` form: the same IP and port, protocol http. Holds
/// for every IP without ':'.
pub proof fn law_address_parses_back(ip: Seq<char>, port: u16)
    requires
        forall|i: int| 0 <= i < ip.len() ==> ip[i] != ':',
    ensures
        parse_line_spec(address_text(ip, port)) == Some(
            RawProxyView { ip, port, protocol: "http"@ },
        ),
{
    let d = decimal(port as nat);
    law_decimal_parses_back(port);
    let line = address_text(ip, port);
    assert(line =~= ip + seq![':'] + d);
    assert forall|k: int| !#[trigger] scheme_sep_at(line, k) by {
        if scheme_sep_at(line, k) {
            if k < ip.len() {
                assert(line[k] == ip[k]);
            } else if k == ip.len() {
                assert(line[k + 1] == d[0]);
                assert(is_digit(d[0]));
            } else {
                assert(line[k] == d[k - ip.len() - 1]);
                assert(is_digit(d[k - ip.len() - 1]));
            }
        }
    }
    lemma_no_scheme_sep(line);
    assert forall|i: int| 0 <= i < d.len() implies d[i] != ':' by {
        assert(is_digit(d[i]));
    }
    lemma_split_append(ip, d, ':');
    lemma_split_no_sep(ip, ':');
    lemma_split_no_sep(d, ':');
    assert(split_on(line, ':') =~= seq![ip, d]);
}

/// A line `protocol://ip:port` reads back as that IP and port, with the
/// protocol lowercased. Holds for every protocol and IP without ':'.
pub proof fn law_scheme_line_parses_back(protocol: Seq<char>, ip: Seq<char>, port: u16)
    requires
        forall|i: int| 0 <= i < protocol.len() ==> protocol[i] != ':',
        forall|i: int| 0 <= i < ip.len() ==> ip[i] != ':',
    ensures
        parse_line_spec(protocol + seq![':', '/', '/'] + address_text(ip, port)) == Some(
            RawProxyView { ip, port, protocol: spec_to_lowercase(protocol) },
        ),
{
    let d = decimal(port as nat);
    law_decimal_parses_back(port);
    let rest = address_text(ip, port);
    let line = protocol + seq![':', '/', '/'] + rest;
    let n = protocol.len() as int;
    assert forall|k: int| 0 <= k < n implies !#[trigger] scheme_sep_at(line, k) by {
        assert(line[k] == protocol[k]);
    }
    assert(scheme_sep_at(line, n));
    lemma_scheme_sep_at(line, n);
    assert(line.skip(n + 3) =~= rest);
    assert(line.take(n) =~= protocol);
    assert forall|k: int| 0 <= k < ip.len() implies #[trigger] rest[k] != ':' by {
        assert(rest[k] == ip[k]);
    }
    lemma_find_char_at(rest, ':', ip.len() as int);
    assert(rest.skip(ip.len() + 1 as int) =~= d);
    assert(rest.take(ip.len() as int) =~= ip);
}

/// A line `ip:port:protocol` reads back as that IP and port, with the
/// protocol lowercased. Holds for every IP and protocol without ':'; a
/// protocol starting with "//" makes the line hold "://", but the address
/// after it has no port, so the colon form still applies.
pub proof fn law_protocol_suffix_parses_back(ip: Seq<char>, port: u16, protocol: Seq<char>)
    requires
        forall|i: int| 0 <= i < ip.len() ==> ip[i] != ':',
        forall|i: int| 0 <= i < protocol.len() ==> protocol[i] != ':',
    ensures
        parse_line_spec(address_text(ip, port) + seq![':'] + protocol) == Some(
            RawProxyView { ip, port, protocol: spec_to_lowercase(protocol) },
        ),
{
    let d = decimal(port as nat);
    law_decimal_parses_back(port);
    let a = address_text(ip, port);
    let line = a + seq![':'] + protocol;
    assert(a =~= ip + seq![':'] + d);
    let m: int = (ip.len() + 1 + d.len()) as int;
    assert forall|k: int| 0 <= k < m implies !#[trigger] scheme_sep_at(line, k) by {
        if scheme_sep_at(line, k) {
            if k < ip.len() {
                assert(line[k] == ip[k]);
            } else if k == ip.len() {
                assert(line[k + 1] == d[0]);
                assert(is_digit(d[0]));
            } else {
                assert(line[k] == d[k - ip.len() - 1]);
                assert(is_digit(d[k - ip.len() - 1]));
            }
        }
    }
    if protocol.len() >= 2 && protocol[0] == '/' && protocol[1] == '/' {
        assert(line[m] == ':');
        assert(line[m + 1] == protocol[0]);
        assert(line[m + 2] == protocol[1]);
        assert(scheme_sep_at(line, m));
        lemma_scheme_sep_at(line, m);
        let rest = line.skip(m + 3);
        lemma_find_char_found(rest, ':');
        if let Some(j) = find_char(rest, ':') {
            assert(rest[j as int] == protocol[j + 2 as int]);
        }
        assert(split_scheme_form(line) is None);
    } else {
        assert forall|k: int| !#[trigger] scheme_sep_at(line, k) by {
            if scheme_sep_at(line, k) && k >= m {
                if k == m {
                    assert(line[k + 1] == protocol[0]);
                    assert(line[k + 2] == protocol[1]);
                } else {
                    assert(line[k] == protocol[k - m - 1]);
                }
            }
        }
        lemma_no_scheme_sep(line);
    }
    assert forall|i: int| 0 <= i < d.len() implies d[i] != ':' by {
        assert(is_digit(d[i]));
    }
    lemma_split_append(ip, d, ':');
    lemma_split_no_sep(ip, ':');
    lemma_split_no_sep(d, ':');
    lemma_split_append(a, protocol, ':');
    lemma_split_no_sep(protocol, ':');
    assert(split_on(line, ':') =~= seq![ip, d, protocol]);
}

proof fn lemma_parse_lines_append(x: Seq<Seq<char>>, y: Seq<Seq<char>>)
    ensures
        parse_lines_spec(x + y) == parse_lines_spec(x) + parse_lines_spec(y),
    decreases y.len(),
{
    if y.len() == 0 {
        assert(x + y =~= x);
        assert(parse_lines_spec(x) + parse_lines_spec(y) =~= parse_lines_spec(x));
    } else {
        let z = x + y;
        assert(z.drop_last() =~= x + y.drop_last());
        assert(z.last() == y.last());
        lemma_parse_lines_append(x, y.drop_last());
        let a = parse_lines_spec(x);
        let b = parse_lines_spec(y.drop_last());
        let t = trim(y.last());
        if !is_ignored_line(t) {
            if let Some(p) = parse_line_spec(t) {
                assert((a + b).push(p) =~= a + b.push(p));
            }
        }
    }
}

/// Two list texts joined at a line break hold the entries of the first, then
/// those of the second: each line is read on its own.
pub proof fn law_list_concat(a: Seq<char>, b: Seq<char>)
    ensures
        parse_list_spec(a + seq!['\n'] + b) == parse_list_spec(a) + parse_list_spec(b),
{
    lemma_split_append(a, b, '\n');
    lemma_parse_lines_append(split_on(a, '\n'), split_on(b, '\n'));
}

/// A text of one line holds nothing when the trimmed line is empty or starts
/// with '#' or "//", and otherwise the entry the trimmed line describes, if
/// any: no other line is skipped.
pub proof fn law_single_line(line: Seq<char>)
    requires
        forall|i: int| 0 <= i < line.len() ==> line[i] != '\n',
    ensures
        parse_list_spec(line) == (if trim(line).len() == 0 || trim(line)[0] == '#' || (trim(
            line,
        ).len() >= 2 && trim(line)[0] == '/' && trim(line)[1] == '/') {
            Seq::<RawProxyView>::empty()
        } else {
            match parse_line_spec(trim(line)) {
                Some(p) => seq![p],
                None => Seq::<RawProxyView>::empty(),
            }
        }),
{
    lemma_split_no_sep(line, '\n');
    assert(seq![line].drop_last() =~= Seq::<Seq<char>>::empty());
    assert(seq![line].last() == line);
    assert(parse_lines_spec(Seq::<Seq<char>>::empty()) =~= Seq::<RawProxyView>::empty());
    assert(parse_list_spec(line) == parse_lines_spec(seq![line]));
    if !is_ignored_line(trim(line)) {
        if let Some(p) = parse_line_spec(trim(line)) {
            assert(Seq::<RawProxyView>::empty().push(p) =~= seq![p]);
        }
    }
}

/// The IP of every entry read from a line holds no ':'.
pub proof fn law_entry_ips_lack_colons(t: Seq<char>)
    ensures
        parse_line_spec(t) matches Some(p) ==> forall|k: int|
            0 <= k < p.ip.len() ==> #[trigger] p.ip[k] != ':',
{
    lemma_split_pieces_lack_sep(t, ':');
    if let Some(i) = find_scheme_sep(t) {
        let rest = t.skip(i + 3 as int);
        lemma_find_char_found(rest, ':');
    }
    if let Some(p) = parse_line_spec(t) {
        if split_scheme_form(t) is None {
            let parts = split_on(t, ':');
            assert forall|k: int| 0 <= k < p.ip.len() implies #[trigger] p.ip[k] != ':' by {
                assert(p.ip == parts[0]);
                assert(parts[0][k] != ':');
            }
        }
    }
}

/// Every entry read from a line, served as `ip:port`, reads back as the same
/// IP and port (with protocol http).
pub proof fn law_entry_address_parses_back(t: Seq<char>)
    ensures
        parse_line_spec(t) matches Some(p) ==> parse_line_spec(address_text(p.ip, p.port)) == Some(
            RawProxyView { ip: p.ip, port: p.port, protocol: "http"@ },
        ),
{
    law_entry_ips_lack_colons(t);
    if let Some(p) = parse_line_spec(t) {
        law_address_parses_back(p.ip, p.port);
    }
}

/// A one-line list `protocol://ip:port` holds exactly the entry of that IP
/// and port with the protocol lowercased, whatever case the protocol is
/// written in: such a line is never taken for a comment. Holds for every
/// protocol and IP without ':' or line break whose line does not start with
/// white space, '#' or '/'.
pub proof fn law_scheme_list_line(protocol: Seq<char>, ip: Seq<char>, port: u16)
    requires
        forall|i: int| 0 <= i < protocol.len() ==> protocol[i] != ':' && protocol[i] != '\n',
        forall|i: int| 0 <= i < ip.len() ==> ip[i] != ':' && ip[i] != '\n',
        protocol.len() > 0 ==> !is_space(protocol[0]) && protocol[0] != '#' && protocol[0] != '/',
    ensures
        parse_list_spec(protocol + seq![':', '/', '/'] + address_text(ip, port)) == seq![
            RawProxyView { ip, port, protocol: spec_to_lowercase(protocol) },
        ],
{
    let d = decimal(port as nat);
    law_decimal_parses_back(port);
    let line = protocol + seq![':', '/', '/'] + address_text(ip, port);
    assert(line =~= protocol + seq![':', '/', '/'] + ip + seq![':'] + d);
    let n = protocol.len() as int;
    let m = n + 3 + ip.len();
    assert forall|i: int| 0 <= i < line.len() implies line[i] != '\n' by {
        if i < n {
            assert(line[i] == protocol[i]);
        } else if i < n + 3 {
        } else if i < m {
            assert(line[i] == ip[i - n - 3]);
        } else if i > m {
            assert(line[i] == d[i - m - 1]);
            assert(is_digit(d[i - m - 1]));
        }
    }
    assert(line.last() == d.last());
    assert(is_digit(d[d.len() - 1]));
    assert(!is_space(line.last()));
    if n > 0 {
        assert(line[0] == protocol[0]);
    }
    assert(!is_space(line[0]));
    assert(trim_start(line) == line);
    assert(trim_end(line) == line);
    assert(trim(line) == line);
    law_single_line(line);
    law_scheme_line_parses_back(protocol, ip, port);
}

} // verus!
