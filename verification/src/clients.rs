//! The formatting clients that can be told apart by the glyphs they put
//! before `<username>`, and the order in which their signatures are tried.

use crate::text::{starts_at, to_chars};
use vstd::prelude::*;

verus! {

/// A client whose messages carry a signature of their own.
#[allow(non_camel_case_types)]
#[derive(Clone, Copy, Debug, PartialEq, Eq, Structural)]
pub enum Clients {
    Tower,
    bRAC,
    Mefedroniy,
    CRAB,
    clRAC,
    Snowdrop,
}

impl Clients {
    /// The client's name as it is shown to the user.
    pub open spec fn spec_name(self) -> Seq<char> {
        match self {
            Clients::Tower => "Tower"@,
            Clients::bRAC => "bRAC"@,
            Clients::Mefedroniy => "Mefedroniy"@,
            Clients::CRAB => "CRAB"@,
            Clients::clRAC => "clRAC"@,
            Clients::Snowdrop => "Snowdrop"@,
        }
    }

    /// The glyphs that stand directly before `<username>` in a line written
    /// by this client. `clRAC` writes none: its signature is the fallback.
    pub open spec fn glyphs(self) -> Seq<char> {
        match self {
            Clients::Tower => seq!['\u{25B2}'],
            Clients::bRAC => seq!['\u{B9AC}', '\u{3E70}'],
            Clients::CRAB => seq!['\u{2550}', '\u{2550}', '\u{2550}'],
            Clients::Mefedroniy => seq!['\u{00B0}', '\u{0298}'],
            Clients::Snowdrop => seq!['\u{0D9E}'],
            Clients::clRAC => Seq::empty(),
        }
    }

    /// The client's name as it is shown to the user.
    pub fn name(&self) -> (s: String)
        ensures
            s@ == self.spec_name(),
    {
        match self {
            Clients::Tower => "Tower".to_owned(),
            Clients::bRAC => "bRAC".to_owned(),
            Clients::Mefedroniy => "Mefedroniy".to_owned(),
            Clients::CRAB => "CRAB".to_owned(),
            Clients::clRAC => "clRAC".to_owned(),
            Clients::Snowdrop => "Snowdrop".to_owned(),
        }
    }

    /// The client that is shown as `name`, if there is one.
    pub open spec fn named(name: Seq<char>) -> Option<Clients> {
        if name == Clients::Tower.spec_name() {
            Some(Clients::Tower)
        } else if name == Clients::bRAC.spec_name() {
            Some(Clients::bRAC)
        } else if name == Clients::Mefedroniy.spec_name() {
            Some(Clients::Mefedroniy)
        } else if name == Clients::CRAB.spec_name() {
            Some(Clients::CRAB)
        } else if name == Clients::clRAC.spec_name() {
            Some(Clients::clRAC)
        } else if name == Clients::Snowdrop.spec_name() {
            Some(Clients::Snowdrop)
        } else {
            None
        }
    }

    /// The client that is shown as `name`, if there is one.
    pub fn from_name(name: &str) -> (client: Option<Clients>)
        ensures
            client == Clients::named(name@),
    {
        let all: [Clients; 6] = [
            Clients::Tower,
            Clients::bRAC,
            Clients::Mefedroniy,
            Clients::CRAB,
            Clients::clRAC,
            Clients::Snowdrop,
        ];
        let given = to_chars(name);
        let mut i: usize = 0;
        while i < 6
            invariant
                i <= 6,
                given@ == name@,
                all@ =~= seq![
                    Clients::Tower,
                    Clients::bRAC,
                    Clients::Mefedroniy,
                    Clients::CRAB,
                    Clients::clRAC,
                    Clients::Snowdrop,
                ],
                forall|k: int| 0 <= k < i ==> name@ != (#[trigger] all@[k]).spec_name(),
            decreases 6 - i,
        {
            let shown = to_chars(all[i].name().as_str());
            if shown.len() == given.len() && starts_at(given.as_slice(), shown.as_slice(), 0) {
                assert(given@.subrange(0, given@.len() as int) =~= given@);
                return Some(all[i]);
            }
            proof {
                if name@ == all@[i as int].spec_name() {
                    assert(given@.subrange(0, given@.len() as int) =~= given@);
                }
            }
            i += 1;
        }
        None
    }

    /// The glyphs of this client's signature.
    pub fn signature(&self) -> (g: Vec<char>)
        ensures
            g@ == self.glyphs(),
    {
        let g: Vec<char> = match self {
            Clients::Tower => vec!['\u{25B2}'],
            Clients::bRAC => vec!['\u{B9AC}', '\u{3E70}'],
            Clients::CRAB => vec!['\u{2550}', '\u{2550}', '\u{2550}'],
            Clients::Mefedroniy => vec!['\u{00B0}', '\u{0298}'],
            Clients::Snowdrop => vec!['\u{0D9E}'],
            Clients::clRAC => Vec::new(),
        };
        assert(g@ =~= self.glyphs());
        g
    }
}

/// No two clients are shown under one name: the name of a client names
/// that client.
pub proof fn lemma_names_differ(client: Clients)
    ensures
        Clients::named(client.spec_name()) == Some(client),
{
    reveal_strlit("Tower");
    reveal_strlit("bRAC");
    reveal_strlit("Mefedroniy");
    reveal_strlit("CRAB");
    reveal_strlit("clRAC");
    reveal_strlit("Snowdrop");
    assert("Tower"@.len() == 5 && "Tower"@[0] == 'T');
    assert("bRAC"@.len() == 4 && "bRAC"@[0] == 'b');
    assert("Mefedroniy"@.len() == 10);
    assert("CRAB"@.len() == 4 && "CRAB"@[0] == 'C');
    assert("clRAC"@.len() == 5 && "clRAC"@[0] == 'c');
    assert("Snowdrop"@.len() == 8);
}

/// One rule of a registry: the glyphs of a signature and the client that
/// writes them.
#[derive(Debug)]
pub struct Signature {
    pub glyphs: Vec<char>,
    pub client: Clients,
}

impl DeepView for Signature {
    type V = (Seq<char>, Clients);

    open spec fn deep_view(&self) -> (Seq<char>, Clients) {
        (self.glyphs@, self.client)
    }
}

/// The order in which the signatures are tried. The fallback comes last:
/// it matches every line that a signature with glyphs matches.
pub open spec fn priority() -> Seq<Clients> {
    seq![
        Clients::Tower,
        Clients::bRAC,
        Clients::CRAB,
        Clients::Mefedroniy,
        Clients::Snowdrop,
        Clients::clRAC,
    ]
}

/// The rules of the registry, in the order of `priority`.
pub open spec fn rules() -> Seq<(Seq<char>, Clients)> {
    Seq::new(priority().len(), |i: int| (priority()[i].glyphs(), priority()[i]))
}

/// The registry of signatures, in the order of `priority`.
pub fn registry() -> (r: Vec<Signature>)
    ensures
        r.deep_view() == rules(),
{
    let order: [Clients; 6] = [
        Clients::Tower,
        Clients::bRAC,
        Clients::CRAB,
        Clients::Mefedroniy,
        Clients::Snowdrop,
        Clients::clRAC,
    ];
    let mut r: Vec<Signature> = Vec::new();
    let mut i: usize = 0;
    while i < 6
        invariant
            i <= 6,
            order@ =~= priority(),
            r@.len() == i,
            forall|k: int| 0 <= k < i ==> (#[trigger] r@[k]).deep_view() == rules()[k],
        decreases 6 - i,
    {
        let client = order[i];
        r.push(Signature { glyphs: client.signature(), client });
        i += 1;
    }
    assert(r.deep_view() =~= rules());
    r
}

} // verus!
