//! The per-job client description: header strings parsed into name/value
//! pairs, and the method and endpoint the job will use.

use vstd::prelude::*;
use vstd::string::StringExecFns;

use crate::config::{randomized_from, Config};
use crate::errors::ClientError;
use crate::strings::{find_char, first_index, has_char, lemma_first_index, strs_views};

verus! {

/// The delimiter a header string is split at: a colon when one occurs
/// anywhere in the string, otherwise an equals sign, otherwise (nothing to
/// find) still a colon.
pub open spec fn delim_of(s: Seq<char>) -> char {
    if has_char(s, ':') {
        ':'
    } else if has_char(s, '=') {
        '='
    } else {
        ':'
    }
}

/// Picks the delimiter that a header string will be split at.
pub fn delim_in(string: String) -> (r: char)
    ensures
        r == delim_of(string@),
{
    proof {
        lemma_first_index(string@, ':');
        lemma_first_index(string@, '=');
    }
    let len = string.as_str().unicode_len();
    if find_char(string.as_str(), ':') < len {
        ':'
    } else if find_char(string.as_str(), '=') < len {
        '='
    } else {
        ':'
    }
}

pub open spec fn msg_empty_name(s: Seq<char>) -> Seq<char> {
    "Name cannot be empty in '"@ + s + "'"@
}

pub open spec fn msg_no_delim(s: Seq<char>) -> Seq<char> {
    "Header values cannot be empty in '"@ + s + "'"@
}

/// What parsing one header string yields: the empty string passes through
/// as an empty pair, a string without its delimiter or with an empty name
/// is refused, and otherwise the string splits at the first delimiter.
pub open spec fn to_header_spec(s: Seq<char>) -> Result<(Seq<char>, Seq<char>), Seq<char>> {
    if s.len() == 0 {
        Ok((Seq::<char>::empty(), Seq::<char>::empty()))
    } else {
        let d = delim_of(s);
        if !has_char(s, d) {
            Err(msg_no_delim(s))
        } else {
            let i = first_index(s, d);
            if i == 0 {
                Err(msg_empty_name(s))
            } else {
                Ok((s.subrange(0, i), s.subrange(i + 1, s.len() as int)))
            }
        }
    }
}

/// Parses one `Name:Value` or `Name=Value` header string.
pub fn split_header(s: &str) -> (r: Result<(String, String), ClientError>)
    ensures
        match to_header_spec(s@) {
            Ok(p) => r matches Ok(q) && q.0@ == p.0 && q.1@ == p.1,
            Err(m) => r matches Err(e) && e matches ClientError::HeaderError(t) && t@ == m,
        },
{
    let len = s.unicode_len();
    if len == 0 {
        return Ok((String::new(), String::new()));
    }
    let d = delim_in(s.to_owned());
    proof {
        lemma_first_index(s@, d);
    }
    let i = find_char(s, d);
    if i >= len {
        let mut m = "Header values cannot be empty in '".to_owned();
        m.append(s);
        m.append("'");
        return Err(ClientError::HeaderError(m));
    }
    if i == 0 {
        let mut m = "Name cannot be empty in '".to_owned();
        m.append(s);
        m.append("'");
        return Err(ClientError::HeaderError(m));
    }
    let name = s.substring_char(0, i).to_owned();
    let value = s.substring_char(i + 1, len).to_owned();
    Ok((name, value))
}

/// Header strings split themselves into name/value pairs, exactly as
/// `to_header_spec` describes.
pub trait HeaderStringSplit: View<V = Seq<char>> {
    fn to_header(self) -> (r: Result<(String, String), ClientError>)
        ensures
            match to_header_spec(self@) {
                Ok(p) => r matches Ok(q) && q.0@ == p.0 && q.1@ == p.1,
                Err(m) => r matches Err(e) && e matches ClientError::HeaderError(t) && t@ == m,
            },
    ;
}

impl HeaderStringSplit for String {
    fn to_header(self) -> (r: Result<(String, String), ClientError>) {
        split_header(self.as_str())
    }
}

/// One job's resolved request: a method, an endpoint, and parsed headers.
#[derive(Debug, Clone)]
pub struct Client {
    pub method: String,
    pub endpoint: String,
    pub headers: Vec<(String, String)>,
    pub debug: bool,
}

/// The views of a list of header pairs.
pub open spec fn pair_views(v: Seq<(String, String)>) -> Seq<(Seq<char>, Seq<char>)> {
    v.map_values(|p: (String, String)| (p.0@, p.1@))
}

/// What building a header list from raw strings yields, starting at entry
/// `i`: each string parses in turn, the first refusal wins, and pairs with
/// an empty name (from empty strings) are dropped.
pub open spec fn built_views(hs: Seq<Seq<char>>, i: int) -> Result<
    Seq<(Seq<char>, Seq<char>)>,
    Seq<char>,
>
    decreases hs.len() - i,
{
    if i < 0 || i >= hs.len() {
        Ok(Seq::<(Seq<char>, Seq<char>)>::empty())
    } else {
        match to_header_spec(hs[i]) {
            Err(m) => Err(m),
            Ok(p) => match built_views(hs, i + 1) {
                Err(m) => Err(m),
                Ok(rest) => Ok(
                    if p.0.len() == 0 {
                        rest
                    } else {
                        seq![p] + rest
                    },
                ),
            },
        }
    }
}

/// Whether `hs` is the header list the run derived from `config`:
/// element-wise equal, up to placeholder substitution when randomization
/// is on.
pub open spec fn headers_from_config(config: Config, hs: Seq<Seq<char>>) -> bool {
    &&& hs.len() == config.headers@.len()
    &&& forall|i: int|
        0 <= i < hs.len() ==> randomized_from(
            config.randomize,
            strs_views(config.headers@)[i],
            #[trigger] hs[i],
        )
}

impl Client {
    /// Builds the client for one job: parses every header string, keeps the
    /// method, and resolves the endpoint. The first malformed header string
    /// refuses the whole job.
    pub fn new(config: Config) -> (r: Result<Client, ClientError>)
        ensures
            exists|hs: Seq<Seq<char>>|
                #[trigger] headers_from_config(config, hs) && match built_views(hs, 0) {
                    Ok(ps) => r matches Ok(c) && pair_views(c.headers@) == ps && c.method@
                        == config.method@ && randomized_from(
                        config.randomize,
                        config.endpoint@,
                        c.endpoint@,
                    ) && c.debug == config.debug,
                    Err(m) => r matches Err(e) && e matches ClientError::HeaderError(t) && t@ == m,
                },
            !config.randomize ==> match built_views(strs_views(config.headers@), 0) {
                Ok(ps) => r matches Ok(c) && pair_views(c.headers@) == ps && c.method@
                    == config.method@ && c.endpoint@ == config.endpoint@ && c.debug
                    == config.debug,
                Err(m) => r matches Err(e) && e matches ClientError::HeaderError(t) && t@ == m,
            },
    {
        let raw = config.headers();
        let ghost hs = strs_views(raw@);
        proof {
            assert(headers_from_config(config, hs));
        }
        let mut headers: Vec<(String, String)> = Vec::new();
        let mut i: usize = 0;
        while i < raw.len()
            invariant
                0 <= i <= raw@.len(),
                hs == strs_views(raw@),
                headers_from_config(config, hs),
                built_views(hs, 0) matches Ok(all) ==> built_views(hs, i as int) matches Ok(rest)
                    && all == pair_views(headers@) + rest,
                built_views(hs, 0) matches Err(m) ==> built_views(hs, i as int) == Err::<
                    Seq<(Seq<char>, Seq<char>)>,
                    Seq<char>,
                >(m),
            decreases raw@.len() - i,
        {
            let h = raw[i].clone();
            proof {
                assert(h@ == hs[i as int]);
            }
            match split_header(h.as_str()) {
                Err(e) => {
                    proof {
                        assert(built_views(hs, i as int) == Err::<
                            Seq<(Seq<char>, Seq<char>)>,
                            Seq<char>,
                        >(to_header_spec(hs[i as int])->Err_0));
                        assert(built_views(hs, 0) == built_views(hs, i as int));
                        if !config.randomize {
                            assert(hs =~= strs_views(config.headers@));
                        }
                    }
                    return Err(e);
                },
                Ok(pair) => {
                    let ghost prev = headers@;
                    let ghost pv = (pair.0@, pair.1@);
                    let empty_name = pair.0.as_str().is_empty();
                    if !empty_name {
                        headers.push(pair);
                    }
                    proof {
                        if empty_name {
                            assert(headers@ == prev);
                        } else {
                            assert(pair_views(headers@) =~= pair_views(prev).push(pv));
                        }
                        if built_views(hs, 0) is Ok {
                            assert(pair_views(headers@) + (built_views(
                                hs,
                                i as int + 1,
                            )->Ok_0) =~~= (built_views(hs, 0)->Ok_0));
                        }
                    }
                },
            }
            i = i + 1;
        }
        proof {
            if built_views(hs, 0) is Ok {
                assert(pair_views(headers@) =~~= (built_views(hs, 0)->Ok_0));
            }
            if !config.randomize {
                assert(hs =~= strs_views(config.headers@));
            }
        }
        Ok(
            Client {
                method: config.method.clone(),
                endpoint: config.endpoint(),
                headers,
                debug: config.debug,
            },
        )
    }
}

} // verus!
