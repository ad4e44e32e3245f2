//! The run configuration: the request descriptor fields, their validation,
//! placeholder randomization, and expansion of a script body into one
//! descriptor per script line.

use vstd::prelude::*;
use vstd::string::StringExecFns;

use crate::errors::ClientError;
use crate::strings::{
    all_digits, contains_str, contains_sub, dec_rep, dec_value, parse_u64, replace_all, replaced,
    split_on, split_two, str_eq, strs_views, u64_to_string,
};
use crate::sys::{now_millis, random_u32};

verus! {

/// One fully-resolved request descriptor plus the run-wide knobs.
#[derive(Debug, Clone)]
pub struct Config {
    pub iterations: usize,
    pub endpoint: String,
    pub method: String,
    pub headers: Vec<String>,
    pub sleep: u64,
    pub script: String,
    pub pool_size: usize,
    pub output: String,
    pub randomize: bool,
    pub verbose: bool,
    pub debug: bool,
    pub errors: bool,
}

/// Field-by-field agreement of two configurations, up to string contents.
pub open spec fn cfg_eq(a: Config, b: Config) -> bool {
    &&& a.iterations == b.iterations
    &&& a.endpoint@ == b.endpoint@
    &&& a.method@ == b.method@
    &&& strs_views(a.headers@) == strs_views(b.headers@)
    &&& a.sleep == b.sleep
    &&& a.script@ == b.script@
    &&& a.pool_size == b.pool_size
    &&& a.output@ == b.output@
    &&& a.randomize == b.randomize
    &&& a.verbose == b.verbose
    &&& a.debug == b.debug
    &&& a.errors == b.errors
}

/// A configuration can run when it has somewhere to send requests — an
/// endpoint or a script — and asks for a known output format.
pub open spec fn valid_spec(c: Config) -> bool {
    &&& !(c.endpoint@.len() == 0 && c.script@.len() == 0)
    &&& (c.output@ == "default"@ || c.output@ == "csv"@ || c.output@ == "json"@)
}

/// What one placeholder-bearing string becomes for a given random draw and
/// clock reading.
pub open spec fn randomized_spec(s: Seq<char>, rnd: u32, now: u64) -> Seq<char> {
    let s1 = if contains_sub(s, "RANDOM"@) {
        replaced(s, "RANDOM"@, dec_rep(rnd as nat))
    } else {
        s
    };
    if contains_sub(s1, "TIMESTAMP"@) {
        replaced(s1, "TIMESTAMP"@, dec_rep(now as nat))
    } else {
        s1
    }
}

/// Relates a source string to what the run actually sends: unchanged when
/// randomization is off, a placeholder substitution for some draw when on.
pub open spec fn randomized_from(randomize: bool, src: Seq<char>, out: Seq<char>) -> bool {
    if randomize {
        exists|rnd: u32, now: u64| out == randomized_spec(src, rnd, now)
    } else {
        out == src
    }
}

impl Config {
    /// Accepts a configuration that can run, and rejects the rest.
    pub fn new(config: Config) -> (r: Result<Config, ClientError>)
        ensures
            r is Ok <==> valid_spec(config),
            r matches Ok(c) ==> c == config,
            r matches Err(e) ==> e matches ClientError::ConfigError(m) && m@
                == "Configuration is invalid, see '--help' for details."@,
    {
        if config.is_valid() {
            return Ok(config);
        }
        Err(
            ClientError::ConfigError(
                "Configuration is invalid, see '--help' for details.".to_owned(),
            ),
        )
    }

    /// The output formats a run can render.
    pub fn valid_outputs(&self) -> (r: Vec<&str>)
        ensures
            r@.len() == 3,
            r@[0]@ == "default"@,
            r@[1]@ == "csv"@,
            r@[2]@ == "json"@,
    {
        let mut outputs: Vec<&str> = Vec::new();
        outputs.push("default");
        outputs.push("csv");
        outputs.push("json");
        outputs
    }

    pub fn is_valid(&self) -> (r: bool)
        ensures
            r == valid_spec(*self),
    {
        let has_target = !(self.endpoint.as_str().is_empty() && self.script.as_str().is_empty());
        let output_ok = str_eq(self.output.as_str(), "default") || str_eq(
            self.output.as_str(),
            "csv",
        ) || str_eq(self.output.as_str(), "json");
        has_target && output_ok
    }

    /// The header strings the run will send: as configured, or with
    /// placeholders substituted when randomization is on.
    pub fn headers(&self) -> (r: Vec<String>)
        ensures
            r@.len() == self.headers@.len(),
            forall|i: int|
                0 <= i < r@.len() ==> randomized_from(
                    self.randomize,
                    self.headers@[i]@,
                    #[trigger] r@[i]@,
                ),
    {
        if !self.randomize {
            return self.headers.clone();
        }
        let mut out: Vec<String> = Vec::new();
        let mut i: usize = 0;
        while i < self.headers.len()
            invariant
                0 <= i <= self.headers@.len(),
                out@.len() == i,
                forall|j: int|
                    0 <= j < i ==> randomized_from(true, self.headers@[j]@, #[trigger] out@[j]@),
            decreases self.headers@.len() - i,
        {
            let h = self.headers[i].clone();
            out.push(Config::randomize_string(h));
            i = i + 1;
        }
        out
    }

    /// The endpoint the run will hit: as configured, or with placeholders
    /// substituted when randomization is on.
    pub fn endpoint(&self) -> (r: String)
        ensures
            randomized_from(self.randomize, self.endpoint@, r@),
    {
        let endpoint = self.endpoint.clone();
        if !self.randomize {
            return endpoint;
        }
        Config::randomize_string(endpoint)
    }

    /// Substitutes a fresh random number for `RANDOM` and the clock reading
    /// for `TIMESTAMP`.
    pub fn randomize_string(s: String) -> (r: String)
        ensures
            exists|rnd: u32, now: u64| r@ == randomized_spec(s@, rnd, now),
    {
        let ghost src = s@;
        let mut out = s;
        let mut rnd_used: u32 = 0;
        let mut now_used: u64 = 0;
        if contains_str(out.as_str(), "RANDOM") {
            rnd_used = random_u32();
            let rnd_str = u64_to_string(rnd_used as u64);
            out = replace_all(out.as_str(), "RANDOM", rnd_str.as_str());
        }
        if contains_str(out.as_str(), "TIMESTAMP") {
            now_used = now_millis();
            let now_str = u64_to_string(now_used);
            out = replace_all(out.as_str(), "TIMESTAMP", now_str.as_str());
        }
        proof {
            assert(out@ == randomized_spec(src, rnd_used, now_used));
        }
        out
    }

    /// Whether verbose output is on. The flag lives here, threaded through
    /// the run explicitly, rather than in process-wide mutable state.
    pub fn is_verbose(&self) -> (r: bool)
        ensures
            r == self.verbose,
    {
        self.verbose
    }

    /// Turns verbose output on or off, touching nothing else.
    pub fn set_verbose(&mut self, v: bool)
        ensures
            *final(self) == (Config { verbose: v, ..*old(self) }),
    {
        self.verbose = v;
    }

    /// The clock reading, rendered in decimal.
    pub fn now() -> (r: String)
        ensures
            exists|m: u64| r@ == dec_rep(m as nat),
    {
        let m = now_millis();
        u64_to_string(m)
    }
}

/// One script record: the five fields of a script line, where zero or an
/// empty string means "fall back to the command-line value".
#[derive(Debug)]
pub struct ConfigDeserializer {
    pub iterations: usize,
    pub method: String,
    pub endpoint: String,
    pub headers: String,
    pub sleep: u64,
}

/// The mathematical content of one script record: iterations, method,
/// endpoint, header list, sleep.
pub open spec fn rec_view(r: ConfigDeserializer) -> (int, Seq<char>, Seq<char>, Seq<char>, int) {
    (r.iterations as int, r.method@, r.endpoint@, r.headers@, r.sleep as int)
}

pub open spec fn recs_views(v: Seq<ConfigDeserializer>) -> Seq<
    (int, Seq<char>, Seq<char>, Seq<char>, int),
> {
    v.map_values(|r: ConfigDeserializer| rec_view(r))
}

/// How one script record overlays a base configuration: a zero count, zero
/// sleep or empty string keeps the base value; a non-empty header field
/// replaces the whole header list, split at commas and semicolons.
pub open spec fn merged(
    base: Config,
    rec: (int, Seq<char>, Seq<char>, Seq<char>, int),
    out: Config,
) -> bool {
    &&& out.iterations as int == if rec.0 != 0 {
        rec.0
    } else {
        base.iterations as int
    }
    &&& out.method@ == if rec.1.len() > 0 {
        rec.1
    } else {
        base.method@
    }
    &&& out.endpoint@ == if rec.2.len() > 0 {
        rec.2
    } else {
        base.endpoint@
    }
    &&& strs_views(out.headers@) == if rec.3.len() > 0 {
        split_on(rec.3, ',', ';')
    } else {
        strs_views(base.headers@)
    }
    &&& out.sleep as int == if rec.4 != 0 {
        rec.4
    } else {
        base.sleep as int
    }
    &&& out.script@ == base.script@
    &&& out.pool_size == base.pool_size
    &&& out.output@ == base.output@
    &&& out.randomize == base.randomize
    &&& out.verbose == base.verbose
    &&& out.debug == base.debug
    &&& out.errors == base.errors
}

impl Config {
    /// A copy of this configuration with equal contents.
    pub fn duplicate(&self) -> (r: Config)
        ensures
            cfg_eq(r, *self),
    {
        let headers = self.headers.clone();
        proof {
            assert(strs_views(headers@) =~~= strs_views(self.headers@));
        }
        Config {
            iterations: self.iterations,
            endpoint: self.endpoint.clone(),
            method: self.method.clone(),
            headers,
            sleep: self.sleep,
            script: self.script.clone(),
            pool_size: self.pool_size,
            output: self.output.clone(),
            randomize: self.randomize,
            verbose: self.verbose,
            debug: self.debug,
            errors: self.errors,
        }
    }

    /// Overlays one script record on this configuration.
    pub fn deserialize(&self, record: ConfigDeserializer) -> (r: Config)
        ensures
            merged(*self, rec_view(record), r),
    {
        let ghost rec = rec_view(record);
        let headers = if record.headers.as_str().is_empty() {
            let h = self.headers.clone();
            proof {
                assert(strs_views(h@) =~~= strs_views(self.headers@));
            }
            h
        } else {
            split_two(record.headers.as_str(), ',', ';')
        };
        Config {
            iterations: if record.iterations != 0 {
                record.iterations
            } else {
                self.iterations
            },
            method: if record.method.as_str().is_empty() {
                self.method.clone()
            } else {
                record.method
            },
            endpoint: if record.endpoint.as_str().is_empty() {
                self.endpoint.clone()
            } else {
                record.endpoint
            },
            headers,
            sleep: if record.sleep != 0 {
                record.sleep
            } else {
                self.sleep
            },
            script: self.script.clone(),
            pool_size: self.pool_size,
            output: self.output.clone(),
            randomize: self.randomize,
            verbose: self.verbose,
            debug: self.debug,
            errors: self.errors,
        }
    }
}

/// How a numeric script field reads: empty means zero (fall back), digits
/// mean their value when it fits the bound, anything else is refused.
pub open spec fn num_field(s: Seq<char>, bound: int) -> Result<int, ()> {
    if s.len() == 0 {
        Ok(0)
    } else if all_digits(s) && dec_value(s) <= bound {
        Ok(dec_value(s))
    } else {
        Err(())
    }
}

/// What one script line yields: split at every pipe, there must be exactly
/// five fields, and the two numeric fields must read as numbers.
pub open spec fn line_parse_spec(l: Seq<char>) -> Result<
    (int, Seq<char>, Seq<char>, Seq<char>, int),
    (),
> {
    let fs = split_on(l, '|', '|');
    if fs.len() != 5 {
        Err(())
    } else {
        match (num_field(fs[0], usize::MAX as int), num_field(fs[4], u64::MAX as int)) {
            (Ok(it), Ok(sl)) => Ok((it, fs[1], fs[2], fs[3], sl)),
            _ => Err(()),
        }
    }
}

fn parse_field_u64(s: &str) -> (r: Option<u64>)
    ensures
        match num_field(s@, u64::MAX as int) {
            Ok(v) => r matches Some(x) && x as int == v,
            Err(_) => r is None,
        },
{
    if s.is_empty() {
        return Some(0);
    }
    parse_u64(s)
}

fn parse_field_usize(s: &str) -> (r: Option<usize>)
    ensures
        match num_field(s@, usize::MAX as int) {
            Ok(v) => r matches Some(x) && x as int == v,
            Err(_) => r is None,
        },
{
    if s.is_empty() {
        return Some(0);
    }
    match parse_u64(s) {
        None => None,
        Some(v) => {
            if v <= usize::MAX as u64 {
                Some(v as usize)
            } else {
                None
            }
        },
    }
}

/// Parses one script line of the form
/// `ITERATIONS|METHOD|ENDPOINT|HEADERS|SLEEP_MS`.
pub fn parse_line(line: &str) -> (r: Result<ConfigDeserializer, ClientError>)
    ensures
        match line_parse_spec(line@) {
            Ok(t) => r matches Ok(rec) && rec_view(rec) == t,
            Err(_) => r matches Err(e) && e matches ClientError::ConfigError(_),
        },
{
    let fields = split_two(line, '|', '|');
    let ghost fs = split_on(line@, '|', '|');
    if fields.len() != 5 {
        return Err(
            ClientError::ConfigError("script line must have exactly five fields".to_owned()),
        );
    }
    proof {
        assert(fields@[0]@ == fs[0] && fields@[1]@ == fs[1] && fields@[2]@ == fs[2] && fields@[3]@
            == fs[3] && fields@[4]@ == fs[4]);
    }
    let iterations = match parse_field_usize(fields[0].as_str()) {
        Some(v) => v,
        None => {
            return Err(
                ClientError::ConfigError("script line has an unreadable count field".to_owned()),
            );
        },
    };
    let sleep = match parse_field_u64(fields[4].as_str()) {
        Some(v) => v,
        None => {
            return Err(
                ClientError::ConfigError("script line has an unreadable sleep field".to_owned()),
            );
        },
    };
    Ok(
        ConfigDeserializer {
            iterations,
            method: fields[1].clone(),
            endpoint: fields[2].clone(),
            headers: fields[3].clone(),
            sleep,
        },
    )
}

/// A script line with a trailing carriage return reads as if without it.
pub open spec fn strip_cr(l: Seq<char>) -> Seq<char> {
    if l.len() > 0 && l.last() == '\r' {
        l.drop_last()
    } else {
        l
    }
}

/// Blank lines and comment lines are skipped.
pub open spec fn skip_line(l: Seq<char>) -> bool {
    l.len() == 0 || l[0] == '#'
}

/// What the script lines from entry `i` on yield: skipped lines contribute
/// nothing, every other line must parse, and the first refusal wins.
pub open spec fn parse_lines_spec(ls: Seq<Seq<char>>, i: int) -> Result<
    Seq<(int, Seq<char>, Seq<char>, Seq<char>, int)>,
    (),
>
    decreases ls.len() - i,
{
    if i < 0 || i >= ls.len() {
        Ok(Seq::<(int, Seq<char>, Seq<char>, Seq<char>, int)>::empty())
    } else {
        let l = strip_cr(ls[i]);
        if skip_line(l) {
            parse_lines_spec(ls, i + 1)
        } else {
            match line_parse_spec(l) {
                Err(x) => Err(x),
                Ok(t) => match parse_lines_spec(ls, i + 1) {
                    Err(x) => Err(x),
                    Ok(rest) => Ok(seq![t] + rest),
                },
            }
        }
    }
}

/// What a whole script body yields: one record per non-skipped line.
pub open spec fn script_parse_spec(body: Seq<char>) -> Result<
    Seq<(int, Seq<char>, Seq<char>, Seq<char>, int)>,
    (),
> {
    parse_lines_spec(split_on(body, '\n', '\n'), 0)
}

/// Parses a script body: one record per line, blank and `#` lines skipped.
pub fn parse_script(body: &str) -> (r: Result<Vec<ConfigDeserializer>, ClientError>)
    ensures
        match script_parse_spec(body@) {
            Ok(ts) => r matches Ok(v) && recs_views(v@) == ts,
            Err(_) => r matches Err(e) && e matches ClientError::ConfigError(_),
        },
{
    let lines = split_two(body, '\n', '\n');
    let ghost ls = strs_views(lines@);
    let mut out: Vec<ConfigDeserializer> = Vec::new();
    let mut i: usize = 0;
    while i < lines.len()
        invariant
            0 <= i <= lines@.len(),
            ls == strs_views(lines@),
            ls == split_on(body@, '\n', '\n'),
            parse_lines_spec(ls, 0) matches Ok(all) ==> parse_lines_spec(ls, i as int) matches Ok(
                rest,
            ) && all == recs_views(out@) + rest,
            parse_lines_spec(ls, 0) is Err ==> parse_lines_spec(ls, i as int) is Err,
        decreases lines@.len() - i,
    {
        let line = &lines[i];
        let n = line.as_str().unicode_len();
        let stripped: &str = if n > 0 && line.as_str().get_char(n - 1) == '\r' {
            line.as_str().substring_char(0, n - 1)
        } else {
            line.as_str()
        };
        proof {
            assert(line@ == ls[i as int]);
            assert(stripped@ =~= strip_cr(ls[i as int]));
        }
        let m = stripped.unicode_len();
        if m == 0 || stripped.get_char(0) == '#' {
            proof {
                assert(skip_line(strip_cr(ls[i as int])));
            }
        } else {
            match parse_line(stripped) {
                Err(e) => {
                    proof {
                        assert(parse_lines_spec(ls, i as int) is Err);
                        assert(parse_lines_spec(ls, 0) is Err);
                    }
                    return Err(e);
                },
                Ok(rec) => {
                    let ghost prev = out@;
                    out.push(rec);
                    proof {
                        assert(recs_views(out@) =~= recs_views(prev).push(rec_view(rec)));
                        if parse_lines_spec(ls, 0) is Ok {
                            assert(recs_views(out@) + (parse_lines_spec(ls, i as int + 1)->Ok_0)
                                =~~= (parse_lines_spec(ls, 0)->Ok_0));
                        }
                    }
                },
            }
        }
        i = i + 1;
    }
    proof {
        if parse_lines_spec(ls, 0) is Ok {
            assert(recs_views(out@) =~~= (parse_lines_spec(ls, 0)->Ok_0));
        }
    }
    Ok(out)
}

/// The endpoint a script record leaves in force over a base configuration.
pub open spec fn merged_endpoint(
    base: Config,
    t: (int, Seq<char>, Seq<char>, Seq<char>, int),
) -> Seq<char> {
    if t.2.len() > 0 {
        t.2
    } else {
        base.endpoint@
    }
}

/// Every expanded descriptor has somewhere to send requests.
pub open spec fn all_endpoints_present(
    base: Config,
    ts: Seq<(int, Seq<char>, Seq<char>, Seq<char>, int)>,
) -> bool {
    forall|j: int| 0 <= j < ts.len() ==> merged_endpoint(base, #[trigger] ts[j]).len() > 0
}

impl Config {
    /// Expands this configuration into the run's descriptor list: itself
    /// alone when there is no script body, otherwise one descriptor per
    /// script record. A descriptor left without an endpoint is fatal.
    pub fn to_vector(&self, script: Option<&str>) -> (r: Result<Vec<Config>, ClientError>)
        ensures
            match script {
                None => r matches Ok(v) && v@.len() == 1 && cfg_eq(v@[0], *self),
                Some(body) => match script_parse_spec(body@) {
                    Err(_) => r matches Err(e) && e matches ClientError::ConfigError(_),
                    Ok(ts) => if all_endpoints_present(*self, ts) {
                        r matches Ok(v) && v@.len() == ts.len() && forall|j: int|
                            0 <= j < ts.len() ==> merged(*self, ts[j], #[trigger] v@[j])
                    } else {
                        r matches Err(e) && e matches ClientError::ConfigError(_)
                    },
                },
            },
    {
        let script_body = match script {
            None => {
                let mut v: Vec<Config> = Vec::new();
                v.push(self.duplicate());
                return Ok(v);
            },
            Some(b) => b,
        };
        let mut recs = match parse_script(script_body) {
            Err(e) => {
                return Err(e);
            },
            Ok(v) => v,
        };
        let ghost ts = script_parse_spec(script_body@)->Ok_0;
        let mut out: Vec<Config> = Vec::new();
        while recs.len() > 0
            invariant
                script_parse_spec(script_body@) == Ok::<
                    Seq<(int, Seq<char>, Seq<char>, Seq<char>, int)>,
                    (),
                >(ts),
                script == Some(script_body),
                out@.len() + recs@.len() == ts.len(),
                recs_views(recs@) == ts.subrange(out@.len() as int, ts.len() as int),
                forall|j: int|
                    0 <= j < out@.len() ==> merged(*self, ts[j], #[trigger] out@[j])
                        && merged_endpoint(*self, ts[j]).len() > 0,
            decreases recs@.len(),
        {
            let ghost k = out@.len() as int;
            let ghost prev_recs = recs@;
            let rec = recs.remove(0);
            proof {
                assert(rec_view(rec) == recs_views(prev_recs)[0]);
                assert(rec_view(rec) == ts[k]);
                assert forall|j: int| 0 <= j < recs@.len() implies recs_views(recs@)[j]
                    == ts.subrange(k + 1, ts.len() as int)[j] by {
                    assert(recs@[j] == prev_recs[j + 1]);
                    assert(recs_views(prev_recs)[j + 1] == ts.subrange(k, ts.len() as int)[j + 1]);
                }
                assert(recs_views(recs@) =~= ts.subrange(k + 1, ts.len() as int));
            }
            let c = self.deserialize(rec);
            if c.endpoint.as_str().is_empty() {
                proof {
                    assert(merged_endpoint(*self, ts[k]).len() == 0);
                    assert(!all_endpoints_present(*self, ts));
                }
                return Err(
                    ClientError::ConfigError(
                        "script line leaves no endpoint to request".to_owned(),
                    ),
                );
            }
            out.push(c);
        }
        proof {
            assert(out@.len() == ts.len());
            assert forall|j: int| 0 <= j < ts.len() implies merged_endpoint(*self, ts[j]).len()
                > 0 by {
                assert(merged(*self, ts[j], out@[j]));
            }
            assert(all_endpoints_present(*self, ts));
        }
        Ok(out)
    }
}

/// The sum of the iteration counts of the descriptors from entry `i` on:
/// how many jobs the run will submit in all.
pub open spec fn sum_iters(cs: Seq<Config>, i: int) -> int
    decreases cs.len() - i,
{
    if i < 0 || i >= cs.len() {
        0
    } else {
        cs[i].iterations + sum_iters(cs, i + 1)
    }
}

pub proof fn lemma_sum_iters_nonneg(cs: Seq<Config>, i: int)
    ensures
        sum_iters(cs, i) >= 0,
    decreases cs.len() - i,
{
    if 0 <= i < cs.len() {
        lemma_sum_iters_nonneg(cs, i + 1);
    }
}

/// The run's total expected job count, computed before anything is
/// submitted; `None` when it does not fit the machine.
pub fn total_requested(configs: &Vec<Config>) -> (r: Option<usize>)
    ensures
        r matches Some(t) ==> t as int == sum_iters(configs@, 0),
        r is None <==> sum_iters(configs@, 0) > usize::MAX,
{
    let mut acc: usize = 0;
    let mut i: usize = 0;
    while i < configs.len()
        invariant
            0 <= i <= configs@.len(),
            acc as int + sum_iters(configs@, i as int) == sum_iters(configs@, 0),
        decreases configs@.len() - i,
    {
        match acc.checked_add(configs[i].iterations) {
            Some(a) => {
                acc = a;
            },
            None => {
                proof {
                    lemma_sum_iters_nonneg(configs@, i as int + 1);
                }
                return None;
            },
        }
        i = i + 1;
    }
    Some(acc)
}

pub fn default_string() -> (r: String)
    ensures
        r@ == Seq::<char>::empty(),
{
    String::new()
}

pub fn default_usize() -> (r: usize)
    ensures
        r == 0,
{
    0
}

pub fn default_u64() -> (r: u64)
    ensures
        r == 0,
{
    0
}

/// A configuration with one plain GET descriptor, as the tests use it.
pub fn test_config() -> (r: Config)
    ensures
        r.iterations == 1,
        r.endpoint@ == "http://www.example.com"@,
        r.method@ == "GET"@,
        strs_views(r.headers@) =~= seq!["foo=bar"@],
        r.sleep == 0,
        r.script@ == Seq::<char>::empty(),
        r.pool_size == 1,
        r.output@ == "default"@,
        !r.randomize,
        !r.verbose,
        !r.debug,
        !r.errors,
{
    let mut headers: Vec<String> = Vec::new();
    headers.push("foo=bar".to_owned());
    Config {
        endpoint: "http://www.example.com".to_owned(),
        method: "GET".to_owned(),
        headers,
        script: String::new(),
        sleep: 0,
        verbose: false,
        debug: false,
        errors: false,
        iterations: 1,
        pool_size: 1,
        output: "default".to_owned(),
        randomize: false,
    }
}

} // verus!
