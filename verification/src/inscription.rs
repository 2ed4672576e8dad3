//! The decoded payload of an inscription.

use vstd::prelude::*;

verus! {

/// A protocol payload as it was inscribed: the operation, the ticker it
/// names, and the numbers of the operation as decimal strings.
#[derive(Debug, PartialEq, Eq)]
pub struct Brc20Inscription {
    /// The protocol name.
    pub p: String,
    /// The operation: deploy, mint or transfer.
    pub op: String,
    /// The ticker symbol.
    pub tick: String,
    /// The amount of a mint or a transfer.
    pub amt: Option<String>,
    /// The maximum supply of a deploy.
    pub max: Option<String>,
    /// The per-mint limit of a deploy.
    pub lim: Option<String>,
    /// The number of decimals of a deploy.
    pub dec: Option<String>,
}

/// A [`Brc20Inscription`] as plain sequences of characters.
pub struct InscriptionView {
    pub p: Seq<char>,
    pub op: Seq<char>,
    pub tick: Seq<char>,
    pub amt: Option<Seq<char>>,
    pub max: Option<Seq<char>>,
    pub lim: Option<Seq<char>>,
    pub dec: Option<Seq<char>>,
}

/// The characters of an optional string.
pub open spec fn text_view(o: Option<String>) -> Option<Seq<char>> {
    match o {
        Some(s) => Some(s@),
        None => None,
    }
}

/// Whether two strings hold the same characters.
pub fn same_text(a: &str, b: &str) -> (r: bool)
    ensures
        r == (a@ == b@),
{
    let x: String = a.to_owned();
    let y: String = b.to_owned();
    x == y
}

/// A copy of an optional string.
pub fn clone_text(o: &Option<String>) -> (r: Option<String>)
    ensures
        r == *o,
{
    match o {
        Some(s) => Some(s.clone()),
        None => None,
    }
}

impl View for Brc20Inscription {
    type V = InscriptionView;

    open spec fn view(&self) -> InscriptionView {
        InscriptionView {
            p: self.p@,
            op: self.op@,
            tick: self.tick@,
            amt: text_view(self.amt),
            max: text_view(self.max),
            lim: text_view(self.lim),
            dec: text_view(self.dec),
        }
    }
}

impl Clone for Brc20Inscription {
    fn clone(&self) -> (r: Self)
        ensures
            r == *self,
    {
        Brc20Inscription {
            p: self.p.clone(),
            op: self.op.clone(),
            tick: self.tick.clone(),
            amt: clone_text(&self.amt),
            max: clone_text(&self.max),
            lim: clone_text(&self.lim),
            dec: clone_text(&self.dec),
        }
    }
}

impl Brc20Inscription {
    /// A mint of `amt` of the ticker `tick`.
    pub fn mint(tick: String, amt: Option<String>) -> (r: Self)
        ensures
            r@ == (InscriptionView {
                p: "brc-20"@,
                op: "mint"@,
                tick: tick@,
                amt: text_view(amt),
                max: None,
                lim: None,
                dec: None,
            }),
    {
        Brc20Inscription {
            p: "brc-20".to_owned(),
            op: "mint".to_owned(),
            tick,
            amt,
            max: None,
            lim: None,
            dec: None,
        }
    }
}

} // verus!
