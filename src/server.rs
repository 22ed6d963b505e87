use vstd::prelude::*;
use crate::text::str_eq;

verus! {

/// A Hammerfest mirror.
#[derive(Copy, Clone, Debug, PartialEq, Eq, Structural, PartialOrd, Ord, Hash)]
pub enum HammerfestServer {
    HammerfestFr,
    HfestNet,
    HammerfestEs,
}

/// The domain name of each mirror.
pub open spec fn server_text(s: HammerfestServer) -> Seq<char> {
    match s {
        HammerfestServer::HammerfestFr => "hammerfest.fr"@,
        HammerfestServer::HfestNet => "hfest.net"@,
        HammerfestServer::HammerfestEs => "hammerfest.es"@,
    }
}

/// Error returned when a text names no known mirror.
#[derive(Copy, Clone, Debug, PartialEq, Eq, Structural, PartialOrd, Ord, Hash)]
pub struct HammerfestServerParseError;

impl HammerfestServerParseError {
    pub fn message(&self) -> (r: String)
        ensures
            r@ == "HammerfestServerParseError"@,
    {
        String::from_str("HammerfestServerParseError")
    }
}

impl HammerfestServer {
    pub fn as_str(&self) -> (r: &'static str)
        ensures
            r@ == server_text(*self),
    {
        match self {
            HammerfestServer::HammerfestFr => "hammerfest.fr",
            HammerfestServer::HfestNet => "hfest.net",
            HammerfestServer::HammerfestEs => "hammerfest.es",
        }
    }

    /// Reads a mirror from its domain name.
    pub fn parse(s: &str) -> (r: Result<HammerfestServer, HammerfestServerParseError>)
        ensures
            r matches Ok(v) ==> server_text(v) == s@,
            r is Err <==> (forall|v: HammerfestServer| server_text(v) != s@),
            forall|x: HammerfestServer| server_text(x) == s@ ==> r == Ok::<HammerfestServer, HammerfestServerParseError>(x),
    {
        proof {
            lemma_server_texts_distinct();
        }
        if str_eq(s, "hammerfest.fr") {
            assert(server_text(HammerfestServer::HammerfestFr) == s@);
            Ok(HammerfestServer::HammerfestFr)
        } else if str_eq(s, "hfest.net") {
            assert(server_text(HammerfestServer::HfestNet) == s@);
            Ok(HammerfestServer::HfestNet)
        } else if str_eq(s, "hammerfest.es") {
            assert(server_text(HammerfestServer::HammerfestEs) == s@);
            Ok(HammerfestServer::HammerfestEs)
        } else {
            proof {
                assert forall|v: HammerfestServer| server_text(v) != s@ by {
                    match v {
                        HammerfestServer::HammerfestFr => {},
                        HammerfestServer::HfestNet => {},
                        HammerfestServer::HammerfestEs => {},
                    }
                }
            }
            Err(HammerfestServerParseError)
        }
    }
}

impl std::str::FromStr for HammerfestServer {
    type Err = HammerfestServerParseError;

    fn from_str(s: &str) -> (r: Result<HammerfestServer, HammerfestServerParseError>)
        ensures
            r matches Ok(v) ==> server_text(v) == s@,
            r is Err <==> (forall|v: HammerfestServer| server_text(v) != s@),
            forall|x: HammerfestServer| server_text(x) == s@ ==> r == Ok::<HammerfestServer, HammerfestServerParseError>(x),
    {
        proof {
            lemma_server_texts_distinct();
        }
        HammerfestServer::parse(s)
    }
}

/// The three domain names differ, so each names one mirror.
pub proof fn lemma_server_texts_distinct()
    ensures
        forall|a: HammerfestServer, b: HammerfestServer|
            server_text(a) == server_text(b) ==> a == b,
{
    reveal_strlit("hammerfest.fr");
    reveal_strlit("hfest.net");
    reveal_strlit("hammerfest.es");
    assert("hammerfest.fr"@ != "hfest.net"@) by {
        assert("hammerfest.fr"@.len() != "hfest.net"@.len());
    }
    assert("hfest.net"@ != "hammerfest.es"@) by {
        assert("hammerfest.es"@.len() != "hfest.net"@.len());
    }
    assert("hammerfest.fr"@ != "hammerfest.es"@) by {
        assert("hammerfest.fr"@[11] != "hammerfest.es"@[11]);
    }
}

/// Reading back the domain name of a mirror gives that mirror.
pub proof fn lemma_server_round_trip(s: HammerfestServer)
    ensures
        forall|t: HammerfestServer| server_text(t) == server_text(s) ==> t == s,
{
    lemma_server_texts_distinct();
}

} // verus!
