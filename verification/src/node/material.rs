//! Certificates and keys in a backup: what is restored from one.

use crate::node::json::{array_of, elements_of, member, member_of, text_member, text_of};
use vstd::prelude::*;

verus! {

/// A certificate and its private key, in PEM.
#[derive(Debug, PartialEq, Eq)]
pub struct KeyPair {
    /// Certificate.
    pub certificate: String,
    /// Private key.
    pub private_key: String,
}

/// Certificate and private key in an optional document, where it holds both as texts.
pub open spec fn pair_in(v: Option<serde_json::Value>) -> Option<(Seq<char>, Seq<char>)> {
    match (text_of(v, "certificate"@), text_of(v, "privateKey"@)) {
        (Some(c), Some(k)) => Some((c, k)),
        _ => None,
    }
}

/// Value of an optional pair.
pub open spec fn pair_view(p: Option<KeyPair>) -> Option<(Seq<char>, Seq<char>)> {
    match p {
        Some(p) => Some((p.certificate@, p.private_key@)),
        None => None,
    }
}

fn read_pair(v: &serde_json::Value) -> (r: Option<KeyPair>)
    ensures
        pair_view(r) == pair_in(Some(*v)),
{
    match (text_member(v, "certificate"), text_member(v, "privateKey")) {
        (Some(certificate), Some(private_key)) => Some(KeyPair { certificate, private_key }),
        _ => None,
    }
}

/// The CA of a backup, where it holds both its certificate and its private key.
#[must_use]
pub fn backup_ca(doc: &serde_json::Value) -> (r: Option<KeyPair>)
    ensures
        pair_view(r) == pair_in(member_of(Some(*doc), "ca"@)),
{
    match member(doc, "ca") {
        Some(ca) => read_pair(ca),
        None => None,
    }
}

/// A named keystore.
#[derive(Debug, PartialEq, Eq)]
pub struct Keystore {
    /// Name.
    pub name: String,
    /// Certificate and private key.
    pub pair: KeyPair,
}

/// Keystores that documents hold, in their order: those with a name, a certificate and a private
/// key as texts.
pub open spec fn keystores_in(list: Seq<serde_json::Value>) -> Seq<
    (Seq<char>, (Seq<char>, Seq<char>)),
>
    decreases list.len(),
{
    if list.len() == 0 {
        Seq::empty()
    } else {
        let before = keystores_in(list.drop_last());
        match (text_of(Some(list.last()), "name"@), pair_in(Some(list.last()))) {
            (Some(n), Some(p)) => before.push((n, p)),
            _ => before,
        }
    }
}

/// Values of keystores.
pub open spec fn keystores_view(l: Seq<Keystore>) -> Seq<(Seq<char>, (Seq<char>, Seq<char>))> {
    l.map_values(|k: Keystore| (k.name@, (k.pair.certificate@, k.pair.private_key@)))
}

/// The keystores of a backup.
#[must_use]
pub fn backup_keystores(doc: &serde_json::Value) -> (r: Vec<Keystore>)
    ensures
        keystores_view(r@) == keystores_in(elements_of(Some(*doc), "keystores"@)),
{
    let mut out: Vec<Keystore> = Vec::new();
    let list = match member(doc, "keystores") {
        Some(m) => array_of(m),
        None => None,
    };
    proof {
        assert(keystores_view(out@) =~= Seq::empty());
    }
    let list = match list {
        Some(l) => l,
        None => {
            return out;
        },
    };
    let mut i: usize = 0;
    proof {
        assert(list@.take(0) =~= Seq::empty());
    }
    while i < list.len()
        invariant
            i <= list.len(),
            keystores_view(out@) == keystores_in(list@.take(i as int)),
        decreases list.len() - i,
    {
        let ghost before = out@;
        proof {
            assert(list@.take(i + 1).drop_last() =~= list@.take(i as int));
            assert(list@.take(i + 1).last() == list@[i as int]);
        }
        match (text_member(&list[i], "name"), read_pair(&list[i])) {
            (Some(name), Some(pair)) => {
                out.push(Keystore { name, pair });
                proof {
                    let k = out@.last();
                    assert(keystores_view(out@) =~= keystores_view(before).push(
                        (k.name@, (k.pair.certificate@, k.pair.private_key@)),
                    ));
                }
            },
            _ => {},
        }
        i += 1;
    }
    proof {
        assert(list@.take(i as int) =~= list@);
    }
    out
}

/// A named truststore.
#[derive(Debug, PartialEq, Eq)]
pub struct Truststore {
    /// Name.
    pub name: String,
    /// Certificates, in PEM.
    pub certificates: String,
}

/// Truststores that documents hold, in their order: those with a name and certificates as texts.
pub open spec fn truststores_in(list: Seq<serde_json::Value>) -> Seq<(Seq<char>, Seq<char>)>
    decreases list.len(),
{
    if list.len() == 0 {
        Seq::empty()
    } else {
        let before = truststores_in(list.drop_last());
        match (text_of(Some(list.last()), "name"@), text_of(Some(list.last()), "certificates"@)) {
            (Some(n), Some(c)) => before.push((n, c)),
            _ => before,
        }
    }
}

/// Values of truststores.
pub open spec fn truststores_view(l: Seq<Truststore>) -> Seq<(Seq<char>, Seq<char>)> {
    l.map_values(|t: Truststore| (t.name@, t.certificates@))
}

/// The truststores of a backup.
#[must_use]
pub fn backup_truststores(doc: &serde_json::Value) -> (r: Vec<Truststore>)
    ensures
        truststores_view(r@) == truststores_in(elements_of(Some(*doc), "truststores"@)),
{
    let mut out: Vec<Truststore> = Vec::new();
    let list = match member(doc, "truststores") {
        Some(m) => array_of(m),
        None => None,
    };
    proof {
        assert(truststores_view(out@) =~= Seq::empty());
    }
    let list = match list {
        Some(l) => l,
        None => {
            return out;
        },
    };
    let mut i: usize = 0;
    proof {
        assert(list@.take(0) =~= Seq::empty());
    }
    while i < list.len()
        invariant
            i <= list.len(),
            truststores_view(out@) == truststores_in(list@.take(i as int)),
        decreases list.len() - i,
    {
        let ghost before = out@;
        proof {
            assert(list@.take(i + 1).drop_last() =~= list@.take(i as int));
            assert(list@.take(i + 1).last() == list@[i as int]);
        }
        match (text_member(&list[i], "name"), text_member(&list[i], "certificates")) {
            (Some(name), Some(certificates)) => {
                out.push(Truststore { name, certificates });
                proof {
                    let t = out@.last();
                    assert(truststores_view(out@) =~= truststores_view(before).push(
                        (t.name@, t.certificates@),
                    ));
                }
            },
            _ => {},
        }
        i += 1;
    }
    proof {
        assert(list@.take(i as int) =~= list@);
    }
    out
}

} // verus!
