//! Parsers for the device bridge's listing outputs: the plain device table
//! and the mdns service table, each stated line by line.
use vstd::prelude::*;
use crate::text::{
    views_of, lemma_views_of_push, spec_split, spec_trim, spec_lines, spec_contains_str,
    split_char, trim_str, lines_of, contains_str, str_eq, lemma_split_nonempty,
};

verus! {

/// The token a device line yields: the text before the first tab, trimmed.
pub open spec fn device_token(l: Seq<char>) -> Seq<char> {
    spec_trim(spec_split(l, '\t')[0])
}

/// A line of the device listing names a usable device when it is marked
/// `device`, its token is non-empty, and the token is no mdns artefact.
pub open spec fn keep_device_line(l: Seq<char>) -> bool {
    spec_contains_str(l, "\tdevice"@) && device_token(l).len() > 0 && !spec_contains_str(
        device_token(l),
        "._tcp"@,
    ) && !spec_contains_str(device_token(l), "._udp"@)
}

pub open spec fn devices_of(ls: Seq<Seq<char>>) -> Seq<Seq<char>>
    decreases ls.len(),
{
    if ls.len() == 0 {
        Seq::empty()
    } else {
        devices_of(ls.drop_last()) + (if keep_device_line(ls.last()) {
            seq![device_token(ls.last())]
        } else {
            Seq::empty()
        })
    }
}

/// The devices of the listing output, its header line skipped.
pub open spec fn spec_device_list(out: Seq<char>) -> Seq<Seq<char>> {
    let ls = spec_lines(out);
    if ls.len() == 0 {
        Seq::empty()
    } else {
        devices_of(ls.skip(1))
    }
}

pub fn parse_device_list(out: &str) -> (r: Vec<String>)
    ensures
        views_of(r@) == spec_device_list(out@),
{
    let lines = lines_of(out);
    let mut r: Vec<String> = Vec::new();
    let n = lines.len();
    if n == 0 {
        assert(views_of(r@) =~= spec_device_list(out@));
        return r;
    }
    let ghost pre = views_of(lines@).skip(1);
    let mut i: usize = 1;
    while i < n
        invariant
            n == lines@.len(),
            1 <= i <= n,
            pre == views_of(lines@).skip(1),
            views_of(r@) == devices_of(pre.take(i - 1)),
        decreases n - i,
    {
        let line = &lines[i];
        proof {
            assert(line@ == pre[i - 1]);
            assert(pre.take(i as int).drop_last() =~= pre.take(i - 1));
            assert(pre.take(i as int).last() == pre[i - 1]);
        }
        if contains_str(line.as_str(), "\tdevice") {
            let parts = split_char(line.as_str(), '\t');
            proof {
                lemma_split_nonempty(line@, '\t');
                assert(views_of(parts@)[0] == spec_split(line@, '\t')[0]);
            }
            let tok = trim_str(parts[0].as_str());
            if !tok.as_str().is_empty() && !contains_str(tok.as_str(), "._tcp") && !contains_str(
                tok.as_str(),
                "._udp",
            ) {
                proof {
                    lemma_views_of_push(r@, tok);
                }
                r.push(tok);
            }
        }
        proof {
            assert(views_of(r@) =~= devices_of(pre.take(i as int)));
        }
        i += 1;
    }
    proof {
        assert(pre.take(n - 1) =~= pre);
    }
    r
}

/// One discovered mdns service.
pub struct MdnsService {
    pub name: String,
    pub service: String,
    pub address: String,
}

pub open spec fn svc_view(m: MdnsService) -> (Seq<char>, Seq<char>, Seq<char>) {
    (m.name@, m.service@, m.address@)
}

pub open spec fn svcs_of(v: Seq<MdnsService>) -> Seq<(Seq<char>, Seq<char>, Seq<char>)> {
    v.map_values(|m: MdnsService| svc_view(m))
}

proof fn lemma_svcs_of_push(v: Seq<MdnsService>, m: MdnsService)
    ensures
        svcs_of(v.push(m)) == svcs_of(v).push(svc_view(m)),
{
    assert(svcs_of(v.push(m)) =~= svcs_of(v).push(svc_view(m)));
}

/// The key that de-duplicates services: the three fields joined by `|`.
pub open spec fn mdns_key(t: (Seq<char>, Seq<char>, Seq<char>)) -> Seq<char> {
    t.0 + "|"@ + t.1 + "|"@ + t.2
}

pub open spec fn spec_has_service(
    acc: Seq<(Seq<char>, Seq<char>, Seq<char>)>,
    t: (Seq<char>, Seq<char>, Seq<char>),
) -> bool {
    exists|j: int| 0 <= j < acc.len() && mdns_key(#[trigger] acc[j]) == mdns_key(t)
}

/// The services of the mdns table, line by line: a line with at least three
/// tab-separated fields adds a service unless one with the same key is
/// already listed.
pub open spec fn mdns_fold(ls: Seq<Seq<char>>) -> Seq<(Seq<char>, Seq<char>, Seq<char>)>
    decreases ls.len(),
{
    if ls.len() == 0 {
        Seq::empty()
    } else {
        let acc = mdns_fold(ls.drop_last());
        let parts = spec_split(ls.last(), '\t');
        if parts.len() >= 3 {
            let t = (spec_trim(parts[0]), spec_trim(parts[1]), spec_trim(parts[2]));
            if spec_has_service(acc, t) {
                acc
            } else {
                acc.push(t)
            }
        } else {
            acc
        }
    }
}

pub open spec fn spec_mdns_list(out: Seq<char>) -> Seq<(Seq<char>, Seq<char>, Seq<char>)> {
    let ls = spec_lines(out);
    if ls.len() == 0 {
        Seq::empty()
    } else {
        mdns_fold(ls.skip(1))
    }
}

fn service_key(name: &str, service: &str, address: &str) -> (r: String)
    ensures
        r@ == name@ + "|"@ + service@ + "|"@ + address@,
{
    let mut s = name.to_owned();
    s.append("|");
    s.append(service);
    s.append("|");
    s.append(address);
    s
}

fn has_service(acc: &Vec<MdnsService>, key: &str) -> (r: bool)
    ensures
        r == exists|j: int|
            0 <= j < acc@.len() && mdns_key(svc_view(#[trigger] acc@[j])) == key@,
{
    let n = acc.len();
    let mut i: usize = 0;
    while i < n
        invariant
            n == acc@.len(),
            i <= n,
            forall|j: int| 0 <= j < i ==> mdns_key(svc_view(#[trigger] acc@[j])) != key@,
        decreases n - i,
    {
        let e = &acc[i];
        let k = service_key(e.name.as_str(), e.service.as_str(), e.address.as_str());
        if str_eq(k.as_str(), key) {
            assert(mdns_key(svc_view(acc@[i as int])) == key@);
            return true;
        }
        i += 1;
    }
    false
}

pub fn parse_mdns_services(out: &str) -> (r: Vec<MdnsService>)
    ensures
        svcs_of(r@) == spec_mdns_list(out@),
{
    let lines = lines_of(out);
    let mut r: Vec<MdnsService> = Vec::new();
    let n = lines.len();
    if n == 0 {
        assert(svcs_of(r@) =~= spec_mdns_list(out@));
        return r;
    }
    let ghost pre = views_of(lines@).skip(1);
    let mut i: usize = 1;
    while i < n
        invariant
            n == lines@.len(),
            1 <= i <= n,
            pre == views_of(lines@).skip(1),
            svcs_of(r@) == mdns_fold(pre.take(i - 1)),
        decreases n - i,
    {
        let line = &lines[i];
        proof {
            assert(line@ == pre[i - 1]);
            assert(pre.take(i as int).drop_last() =~= pre.take(i - 1));
            assert(pre.take(i as int).last() == pre[i - 1]);
        }
        let parts = split_char(line.as_str(), '\t');
        proof {
            assert(views_of(parts@).len() == spec_split(line@, '\t').len());
        }
        if parts.len() >= 3 {
            proof {
                assert(views_of(parts@)[0] == spec_split(line@, '\t')[0]);
                assert(views_of(parts@)[1] == spec_split(line@, '\t')[1]);
                assert(views_of(parts@)[2] == spec_split(line@, '\t')[2]);
            }
            let name = trim_str(parts[0].as_str());
            let service = trim_str(parts[1].as_str());
            let address = trim_str(parts[2].as_str());
            let key = service_key(name.as_str(), service.as_str(), address.as_str());
            let present = has_service(&r, key.as_str());
            proof {
                let rv = r@;
                let t = (name@, service@, address@);
                assert(key@ == mdns_key(t));
                if present {
                    let j = choose|j: int|
                        0 <= j < rv.len() && mdns_key(svc_view(#[trigger] rv[j])) == key@;
                    assert(mdns_key(svcs_of(rv)[j]) == mdns_key(t));
                    assert(spec_has_service(svcs_of(rv), t));
                } else {
                    if spec_has_service(svcs_of(rv), t) {
                        let j = choose|j: int|
                            0 <= j < svcs_of(rv).len() && mdns_key(#[trigger] svcs_of(rv)[j])
                                == mdns_key(t);
                        assert(mdns_key(svc_view(rv[j])) == key@);
                    }
                }
            }
            if !present {
                let m = MdnsService { name, service, address };
                proof {
                    lemma_svcs_of_push(r@, m);
                }
                r.push(m);
            }
        }
        proof {
            assert(svcs_of(r@) =~= mdns_fold(pre.take(i as int)));
        }
        i += 1;
    }
    proof {
        assert(pre.take(n - 1) =~= pre);
    }
    r
}

} // verus!
