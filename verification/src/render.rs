//! Rendering of test datamodels.
//!
//! A datamodel template holds fragment directives: a `#` starts a
//! directive that runs to the end of its line, either `#id(args)` or
//! `#m2m(args)`. A connector-specific renderer turns each fragment into
//! datamodel text; everything outside the directives is copied through
//! unchanged. The complete test datamodel is the datasource/generator
//! header followed by the processed template.

use vstd::prelude::*;
use vstd::pervasive::unreached;
use vstd::string::StrSliceExecFns;
use vstd::string::StringExecFns;

verus! {

/// The arguments of one `#id(...)` directive.
pub struct IdFragment {
    pub args: String,
}

/// The arguments of one `#m2m(...)` directive.
pub struct M2mFragment {
    pub args: String,
}

/// One parsed template directive.
pub enum DatamodelFragment {
    Id(IdFragment),
    M2m(M2mFragment),
}

/// The main trait a datamodel renderer for a connector has to
/// implement. Each implementation fixes its own rendering functions
/// `id_spec` and `m2m_spec`; the provided `render` dispatches on the
/// fragment kind.
pub trait DatamodelRenderer {
    /// What this renderer makes of an id directive's arguments.
    spec fn id_spec(&self, args: Seq<char>) -> Seq<char>;

    /// What this renderer makes of an m2m directive's arguments.
    spec fn m2m_spec(&self, args: Seq<char>) -> Seq<char>;

    fn render_id(&self, id: IdFragment) -> (r: String)
        ensures
            r@ == self.id_spec(id.args@),
    ;

    fn render_m2m(&self, m2m: M2mFragment) -> (r: String)
        ensures
            r@ == self.m2m_spec(m2m.args@),
    ;

    fn render(&self, fragment: DatamodelFragment) -> (r: String)
        ensures
            r@ == match fragment {
                DatamodelFragment::Id(id) => self.id_spec(id.args@),
                DatamodelFragment::M2m(m2m) => self.m2m_spec(m2m.args@),
            },
    {
        match fragment {
            DatamodelFragment::Id(id) => self.render_id(id),
            DatamodelFragment::M2m(m2m) => self.render_m2m(m2m),
        }
    }
}

/// Whether `t` is an id directive: `#id(` ... `)`.
pub open spec fn is_id_fragment(t: Seq<char>) -> bool {
    t.len() >= 5 && t.subrange(0, 4) == "#id("@ && t[t.len() - 1] == ')'
}

/// Whether `t` is an m2m directive: `#m2m(` ... `)`.
pub open spec fn is_m2m_fragment(t: Seq<char>) -> bool {
    t.len() >= 6 && t.subrange(0, 5) == "#m2m("@ && t[t.len() - 1] == ')'
}

/// Whether `t` is a well-formed directive.
pub open spec fn fragment_wf(t: Seq<char>) -> bool {
    is_id_fragment(t) || is_m2m_fragment(t)
}

/// Whether the parsed fragment `f` is what the directive text `t` says.
pub open spec fn fragment_matches(f: DatamodelFragment, t: Seq<char>) -> bool {
    match f {
        DatamodelFragment::Id(id) => is_id_fragment(t) && id.args@ == t.subrange(4, t.len() - 1),
        DatamodelFragment::M2m(m2m) => is_m2m_fragment(t) && m2m.args@ == t.subrange(
            5,
            t.len() - 1,
        ),
    }
}

/// A directive cannot be both kinds at once.
proof fn lemma_fragment_kinds_exclusive(t: Seq<char>)
    ensures
        !(is_id_fragment(t) && is_m2m_fragment(t)),
{
    reveal_strlit("#id(");
    reveal_strlit("#m2m(");
    if is_id_fragment(t) && is_m2m_fragment(t) {
        assert(t[1] == "#id("@[1]);
        assert(t[1] == "#m2m("@[1]);
        assert(false);
    }
}

/// What a renderer makes of one directive text.
pub open spec fn fragment_render<R: DatamodelRenderer>(rnd: &R, t: Seq<char>) -> Seq<char> {
    if is_id_fragment(t) {
        rnd.id_spec(t.subrange(4, t.len() - 1))
    } else if is_m2m_fragment(t) {
        rnd.m2m_spec(t.subrange(5, t.len() - 1))
    } else {
        Seq::empty()
    }
}

/// Parse one directive text.
pub fn parse_fragment(text: &str) -> (r: Option<DatamodelFragment>)
    ensures
        r is Some <==> fragment_wf(text@),
        r matches Some(f) ==> fragment_matches(f, text@),
{
    proof {
        reveal_strlit("#id(");
        reveal_strlit("#m2m(");
    }
    let n = text.unicode_len();
    if n >= 5 && text.get_char(0) == '#' && text.get_char(1) == 'i' && text.get_char(2) == 'd'
        && text.get_char(3) == '(' && text.get_char(n - 1) == ')' {
        proof {
            assert(text@.subrange(0, 4) =~= "#id("@);
        }
        let args = text.substring_char(4, n - 1);
        Some(DatamodelFragment::Id(IdFragment { args: String::from_str(args) }))
    } else if n >= 6 && text.get_char(0) == '#' && text.get_char(1) == 'm' && text.get_char(2)
        == '2' && text.get_char(3) == 'm' && text.get_char(4) == '(' && text.get_char(n - 1)
        == ')' {
        proof {
            assert(text@.subrange(0, 5) =~= "#m2m("@);
        }
        let args = text.substring_char(5, n - 1);
        Some(DatamodelFragment::M2m(M2mFragment { args: String::from_str(args) }))
    } else {
        proof {
            if is_id_fragment(text@) {
                assert(text@[0] == "#id("@[0]);
                assert(text@[1] == "#id("@[1]);
                assert(text@[2] == "#id("@[2]);
                assert(text@[3] == "#id("@[3]);
                assert(false);
            }
            if is_m2m_fragment(text@) {
                assert(text@[0] == "#m2m("@[0]);
                assert(text@[1] == "#m2m("@[1]);
                assert(text@[2] == "#m2m("@[2]);
                assert(text@[3] == "#m2m("@[3]);
                assert(text@[4] == "#m2m("@[4]);
                assert(false);
            }
        }
        None
    }
}

/// The position of the first line break at or after `i`, or the end.
pub open spec fn next_newline(t: Seq<char>, i: int) -> int
    decreases t.len() - i,
{
    if i < 0 || i >= t.len() {
        t.len() as int
    } else if t[i] == '\n' {
        i
    } else {
        next_newline(t, i + 1)
    }
}

proof fn lemma_next_newline_bounds(t: Seq<char>, i: int)
    requires
        0 <= i <= t.len(),
    ensures
        i <= next_newline(t, i) <= t.len(),
    decreases t.len() - i,
{
    if i < t.len() && t[i] != '\n' {
        lemma_next_newline_bounds(t, i + 1);
    }
}

proof fn lemma_next_newline_at(t: Seq<char>, i: int, j: int)
    requires
        0 <= i <= j <= t.len(),
        forall|k: int| i <= k < j ==> t[k] != '\n',
        j == t.len() || t[j] == '\n',
    ensures
        next_newline(t, i) == j,
    decreases j - i,
{
    if i < j {
        lemma_next_newline_at(t, i + 1, j);
    }
}

/// Well-formedness of a template from position `i` on: every directive
/// parses.
pub open spec fn template_wf_from(t: Seq<char>, i: int) -> bool
    decreases t.len() - i,
{
    if i < 0 || i >= t.len() {
        true
    } else if t[i] == '#' {
        let e = next_newline(t, i);
        // a '#' is never a line break, so the directive is non-empty
        if e <= i || e > t.len() {
            false
        } else {
            fragment_wf(t.subrange(i, e)) && template_wf_from(t, e)
        }
    } else {
        template_wf_from(t, i + 1)
    }
}

/// The processed template from position `i` on: directives replaced by
/// their rendering, everything else copied through.
pub open spec fn process_spec<R: DatamodelRenderer>(rnd: &R, t: Seq<char>, i: int) -> Seq<char>
    decreases t.len() - i,
{
    if i < 0 || i >= t.len() {
        Seq::empty()
    } else if t[i] == '#' {
        let e = next_newline(t, i);
        // a '#' is never a line break, so the directive is non-empty
        if e <= i || e > t.len() {
            Seq::empty()
        } else {
            fragment_render(rnd, t.subrange(i, e)) + process_spec(rnd, t, e)
        }
    } else {
        seq![t[i]] + process_spec(rnd, t, i + 1)
    }
}

/// A directive-free stretch is copied through as one piece.
proof fn lemma_process_literal_run<R: DatamodelRenderer>(rnd: &R, t: Seq<char>, i: int, j: int)
    requires
        0 <= i < j <= t.len(),
        forall|k: int| i <= k < j ==> t[k] != '#',
    ensures
        process_spec(rnd, t, i) == t.subrange(i, j) + process_spec(rnd, t, j),
    decreases j - i,
{
    if i + 1 == j {
        assert(t.subrange(i, j) =~= seq![t[i]]);
    } else {
        lemma_process_literal_run(rnd, t, i + 1, j);
        assert(t.subrange(i, j) =~= seq![t[i]] + t.subrange(i + 1, j));
        assert(seq![t[i]] + (t.subrange(i + 1, j) + process_spec(rnd, t, j)) =~= (seq![t[i]]
            + t.subrange(i + 1, j)) + process_spec(rnd, t, j));
    }
}

fn process_from<R: DatamodelRenderer>(t: &str, i: usize, renderer: &R) -> (out: String)
    requires
        i <= t@.len(),
        template_wf_from(t@, i as int),
    ensures
        out@ == process_spec(renderer, t@, i as int),
    decreases t@.len() - i,
{
    let n = t.unicode_len();
    if i >= n {
        return String::new();
    }
    let c = t.get_char(i);
    if c == '#' {
        let mut j: usize = i + 1;
        while j < n && t.get_char(j) != '\n'
            invariant
                n == t@.len(),
                i < j <= n,
                t@[i as int] == '#',
                forall|k: int| i < k < j ==> t@[k] != '\n',
            decreases n - j,
        {
            j = j + 1;
        }
        proof {
            reveal_strlit("\n");
            assert('#' != '\n');
            lemma_next_newline_at(t@, i as int, j as int);
        }
        let frag_text = t.substring_char(i, j);
        let frag = match parse_fragment(frag_text) {
            Some(f) => f,
            None => unreached(),
        };
        let rendered = renderer.render(frag);
        proof {
            lemma_fragment_kinds_exclusive(frag_text@);
        }
        let rest = process_from(t, j, renderer);
        let mut out = rendered;
        out.append(rest.as_str());
        out
    } else {
        let mut j: usize = i + 1;
        while j < n && t.get_char(j) != '#'
            invariant
                n == t@.len(),
                i < j <= n,
                t@[i as int] != '#',
                forall|k: int| i < k < j ==> t@[k] != '#',
            decreases n - j,
        {
            j = j + 1;
        }
        proof {
            // the run ends either at the end or at a directive; in
            // either case the template stays well-formed from there
            lemma_template_wf_run(t@, i as int, j as int);
            lemma_process_literal_run(renderer, t@, i as int, j as int);
        }
        let lit = t.substring_char(i, j);
        let rest = process_from(t, j, renderer);
        let mut out = String::from_str(lit);
        out.append(rest.as_str());
        out
    }
}

/// Well-formedness is untouched by a directive-free stretch.
proof fn lemma_template_wf_run(t: Seq<char>, i: int, j: int)
    requires
        0 <= i < j <= t.len(),
        forall|k: int| i <= k < j ==> t[k] != '#',
    ensures
        template_wf_from(t, i) == template_wf_from(t, j),
    decreases j - i,
{
    if i + 1 < j {
        lemma_template_wf_run(t, i + 1, j);
    }
}

fn template_wf_check(t: &str, i: usize) -> (b: bool)
    requires
        i <= t@.len(),
    ensures
        b == template_wf_from(t@, i as int),
    decreases t@.len() - i,
{
    let n = t.unicode_len();
    if i >= n {
        return true;
    }
    let c = t.get_char(i);
    if c == '#' {
        let mut j: usize = i + 1;
        while j < n && t.get_char(j) != '\n'
            invariant
                n == t@.len(),
                i < j <= n,
                t@[i as int] == '#',
                forall|k: int| i < k < j ==> t@[k] != '\n',
            decreases n - j,
        {
            j = j + 1;
        }
        proof {
            reveal_strlit("\n");
            assert('#' != '\n');
            lemma_next_newline_at(t@, i as int, j as int);
        }
        let frag_text = t.substring_char(i, j);
        match parse_fragment(frag_text) {
            Some(_) => template_wf_check(t, j),
            None => false,
        }
    } else {
        let mut j: usize = i + 1;
        while j < n && t.get_char(j) != '#'
            invariant
                n == t@.len(),
                i < j <= n,
                t@[i as int] != '#',
                forall|k: int| i < k < j ==> t@[k] != '#',
            decreases n - j,
        {
            j = j + 1;
        }
        proof {
            lemma_template_wf_run(t@, i as int, j as int);
        }
        template_wf_check(t, j)
    }
}

/// Whether a template is well-formed: every directive in it parses.
/// Exactly these templates are accepted by the processing below.
pub fn template_well_formed(template: &str) -> (b: bool)
    ensures
        b == template_wf_from(template@, 0),
{
    template_wf_check(template, 0)
}

/// Process a datamodel template: replace each directive by what the
/// renderer makes of it, and copy everything else through unchanged.
pub fn process_template<R: DatamodelRenderer>(template: String, renderer: &R) -> (r: String)
    requires
        template_wf_from(template@, 0),
    ensures
        r@ == process_spec(renderer, template@, 0),
{
    process_from(template.as_str(), 0, renderer)
}

/// A plain renderer: emits a directive's arguments unchanged. It is the
/// identity rendering, for backends whose datamodel needs no rewriting.
pub struct PlainRenderer;

impl DatamodelRenderer for PlainRenderer {
    open spec fn id_spec(&self, args: Seq<char>) -> Seq<char> {
        args
    }

    open spec fn m2m_spec(&self, args: Seq<char>) -> Seq<char> {
        args
    }

    fn render_id(&self, id: IdFragment) -> (r: String) {
        id.args
    }

    fn render_m2m(&self, m2m: M2mFragment) -> (r: String) {
        m2m.args
    }
}

/// MySQL server versions a test connector may pin.
pub enum MySqlVersion {
    V5_6,
    V5_7,
    V8,
    MariaDb,
}

/// The connector family a test runs against, with its pinned version
/// where one matters.
pub enum ConnectorVersion {
    MySql(Option<MySqlVersion>),
    Postgres,
    Sqlite,
    MongoDb,
    SqlServer,
}

impl ConnectorVersion {
    /// Whether this is a MySQL-family connector.
    pub fn is_mysql(&self) -> (r: bool)
        ensures
            r == (self is MySql),
    {
        match self {
            ConnectorVersion::MySql(_) => true,
            _ => false,
        }
    }
}

/// Whether the version must keep the relation-joins preview feature
/// out: every MySQL connector except version 8.
pub open spec fn excludes_relation_joins(v: ConnectorVersion) -> bool {
    v is MySql && !(v matches ConnectorVersion::MySql(Some(MySqlVersion::V8)))
}

fn version_excludes_relation_joins(v: &ConnectorVersion) -> (r: bool)
    ensures
        r == excludes_relation_joins(*v),
{
    match v {
        ConnectorVersion::MySql(Some(MySqlVersion::V8)) => false,
        ConnectorVersion::MySql(_) => true,
        _ => false,
    }
}

/// Views of a list of strings.
pub open spec fn strs_view(l: Seq<String>) -> Seq<Seq<char>> {
    l.map_values(|s: String| s@)
}

/// A string in double quotes.
pub open spec fn quoted(s: Seq<char>) -> Seq<char> {
    "\""@ + s + "\""@
}

/// The comma-space joining of a list of strings.
pub open spec fn join_list(l: Seq<Seq<char>>) -> Seq<char>
    decreases l.len(),
{
    if l.len() == 0 {
        Seq::empty()
    } else if l.len() == 1 {
        l[0]
    } else {
        l[0] + ", "@ + join_list(l.drop_first())
    }
}

proof fn lemma_join_push(l: Seq<Seq<char>>, x: Seq<char>)
    ensures
        join_list(l.push(x)) == if l.len() == 0 {
            x
        } else {
            join_list(l) + ", "@ + x
        },
    decreases l.len(),
{
    if l.len() == 0 {
        assert(l.push(x)[0] == x);
    } else {
        lemma_join_push(l.drop_first(), x);
        assert(l.push(x)[0] == l[0]);
        assert(l.push(x).drop_first() =~= l.drop_first().push(x));
        if l.len() == 1 {
            assert(l.drop_first().len() == 0);
        } else {
            assert(l[0] + ", "@ + (join_list(l.drop_first()) + ", "@ + x) =~= (l[0] + ", "@
                + join_list(l.drop_first())) + ", "@ + x);
        }
    }
}

/// The quoted exclusion list: each excluded feature in quotes, plus the
/// relation-joins feature on the versions that must keep it out.
pub open spec fn spec_excluded(excl: Seq<Seq<char>>, v: ConnectorVersion) -> Seq<Seq<char>> {
    let q = excl.map_values(|s: Seq<char>| quoted(s));
    if excludes_relation_joins(v) {
        q.push(quoted("relationJoins"@))
    } else {
        q
    }
}

/// Of the given features, the quoted ones that are not excluded, in
/// order.
pub open spec fn spec_kept(feats: Seq<Seq<char>>, excl_q: Seq<Seq<char>>) -> Seq<Seq<char>>
    decreases feats.len(),
{
    if feats.len() == 0 {
        Seq::empty()
    } else {
        let rest = spec_kept(feats.drop_last(), excl_q);
        if excl_q.contains(quoted(feats.last())) {
            rest
        } else {
            rest.push(quoted(feats.last()))
        }
    }
}

/// The rendered preview-feature list.
pub open spec fn spec_preview_features(
    excluded: Seq<Seq<char>>,
    v: ConnectorVersion,
    feats: Seq<Seq<char>>,
) -> Seq<char> {
    join_list(spec_kept(feats, spec_excluded(excluded, v)))
}

/// A fresh string in double quotes.
fn quote(f: &str) -> (r: String)
    ensures
        r@ == quoted(f@),
{
    let mut s = String::from_str("\"");
    s.append(f);
    s.append("\"");
    s
}

fn contains_str(l: &Vec<String>, x: &String) -> (r: bool)
    ensures
        r == strs_view(l@).contains(x@),
{
    let mut i: usize = 0;
    while i < l.len()
        invariant
            i <= l@.len(),
            forall|j: int| 0 <= j < i ==> strs_view(l@)[j] != x@,
        decreases l@.len() - i,
    {
        proof {
            assert(strs_view(l@)[i as int] == l@[i as int]@);
        }
        if l[i] == *x {
            return true;
        }
        i = i + 1;
    }
    false
}

/// Join strings with a comma and a space.
fn join_strings(l: &Vec<String>) -> (r: String)
    ensures
        r@ == join_list(strs_view(l@)),
{
    let ghost lv = strs_view(l@);
    let mut out = String::new();
    let mut i: usize = 0;
    while i < l.len()
        invariant
            i <= l@.len(),
            lv == strs_view(l@),
            out@ == join_list(lv.take(i as int)),
        decreases l@.len() - i,
    {
        proof {
            assert(lv[i as int] == l@[i as int]@);
            assert(lv.take(i as int + 1) =~= lv.take(i as int).push(lv[i as int]));
            lemma_join_push(lv.take(i as int), lv[i as int]);
        }
        if i > 0 {
            out.append(", ");
        }
        out.append(l[i].as_str());
        i = i + 1;
    }
    proof {
        assert(lv.take(l@.len() as int) =~= lv);
    }
    out
}

/// Each string quoted, in order.
fn quote_all(l: &Vec<String>) -> (r: Vec<String>)
    ensures
        strs_view(r@) == strs_view(l@).map_values(|s: Seq<char>| quoted(s)),
{
    let mut out: Vec<String> = Vec::new();
    let mut i: usize = 0;
    while i < l.len()
        invariant
            i <= l@.len(),
            out@.len() == i as int,
            forall|j: int| 0 <= j < i ==> out@[j]@ == quoted(l@[j]@),
        decreases l@.len() - i,
    {
        out.push(quote(l[i].as_str()));
        i = i + 1;
    }
    proof {
        assert(strs_view(out@) =~= strs_view(l@).map_values(|s: Seq<char>| quoted(s)));
    }
    out
}

/// Render the preview-feature list for the generator block: every
/// active feature, quoted, minus the excluded ones and minus
/// relation joins on the MySQL versions that lack it.
pub fn render_preview_features(
    excluded_features: &Vec<String>,
    version: &ConnectorVersion,
    all_features: &Vec<String>,
) -> (r: String)
    ensures
        r@ == spec_preview_features(
            strs_view(excluded_features@),
            *version,
            strs_view(all_features@),
        ),
{
    let mut excl = quote_all(excluded_features);
    if version_excludes_relation_joins(version) {
        let q = quote("relationJoins");
        proof {
            assert(strs_view(excl@.push(q)) =~= strs_view(excl@).push(q@));
        }
        excl.push(q);
    }
    let ghost exq = spec_excluded(strs_view(excluded_features@), *version);
    proof {
        assert(strs_view(excl@) == exq);
    }
    let ghost fv = strs_view(all_features@);
    let mut kept: Vec<String> = Vec::new();
    let mut i: usize = 0;
    while i < all_features.len()
        invariant
            i <= all_features@.len(),
            fv == strs_view(all_features@),
            exq == strs_view(excl@),
            strs_view(kept@) == spec_kept(fv.take(i as int), exq),
        decreases all_features@.len() - i,
    {
        proof {
            assert(fv[i as int] == all_features@[i as int]@);
            assert(fv.take(i as int + 1).drop_last() =~= fv.take(i as int));
            assert(fv.take(i as int + 1).last() == fv[i as int]);
        }
        let q = quote(all_features[i].as_str());
        if !contains_str(&excl, &q) {
            proof {
                assert(strs_view(kept@.push(q)) =~= strs_view(kept@).push(q@));
            }
            kept.push(q);
        }
        i = i + 1;
    }
    proof {
        assert(fv.take(all_features@.len() as int) =~= fv);
    }
    join_strings(&kept)
}

/// The `schemas = [...]` line of a multi-schema datasource block, or
/// nothing.
pub open spec fn spec_schemas_line(schemas: Seq<Seq<char>>) -> Seq<char> {
    if schemas.len() == 0 {
        Seq::empty()
    } else {
        "    schemas = ["@ + join_list(schemas.map_values(|s: Seq<char>| quoted(s))) + "]\n"@
    }
}

/// The datasource and generator header of a rendered test datamodel.
pub open spec fn spec_datamodel_header(
    provider: Seq<char>,
    url: Seq<char>,
    relation_mode: Seq<char>,
    schemas_line: Seq<char>,
    features: Seq<char>,
) -> Seq<char> {
    "datasource test {\n    provider = \""@ + provider + "\"\n    url = \""@ + url
        + "\"\n    relationMode = \""@ + relation_mode + "\"\n"@ + schemas_line
        + "}\n\ngenerator client {\n    provider = \"prisma-client-js\"\n    previewFeatures = ["@
        + features + "]\n}\n"@
}

/// The test configuration a datamodel is rendered under, loaded once at
/// process start and passed in explicitly.
pub struct TestConfig {
    pub provider: String,
    pub connection_string: String,
    pub relation_mode: String,
    pub version: ConnectorVersion,
    pub preview_features: Vec<String>,
}

/// Render the complete test datamodel: the datasource and generator
/// header for the configured connector, then the processed template.
pub fn render_test_datamodel<R: DatamodelRenderer>(
    config: &TestConfig,
    template: String,
    excluded_features: &Vec<String>,
    relation_mode_override: Option<String>,
    db_schemas: &Vec<String>,
    renderer: &R,
) -> (r: String)
    requires
        template_wf_from(template@, 0),
    ensures
        r@ == spec_datamodel_header(
            config.provider@,
            config.connection_string@,
            match relation_mode_override {
                Some(m) => m@,
                None => config.relation_mode@,
            },
            spec_schemas_line(strs_view(db_schemas@)),
            spec_preview_features(
                strs_view(excluded_features@),
                config.version,
                strs_view(config.preview_features@),
            ),
        ) + "\n\n"@ + process_spec(renderer, template@, 0),
{
    let features = render_preview_features(
        excluded_features,
        &config.version,
        &config.preview_features,
    );
    let mode = match relation_mode_override {
        Some(m) => m,
        None => config.relation_mode.clone(),
    };
    let mut schemas_line = String::new();
    if db_schemas.len() > 0 {
        schemas_line.append("    schemas = [");
        let quoted_schemas = quote_all(db_schemas);
        let joined = join_strings(&quoted_schemas);
        schemas_line.append(joined.as_str());
        schemas_line.append("]\n");
    }
    let mut out = String::from_str("datasource test {\n    provider = \"");
    out.append(config.provider.as_str());
    out.append("\"\n    url = \"");
    out.append(config.connection_string.as_str());
    out.append("\"\n    relationMode = \"");
    out.append(mode.as_str());
    out.append("\"\n");
    out.append(schemas_line.as_str());
    out.append(
        "}\n\ngenerator client {\n    provider = \"prisma-client-js\"\n    previewFeatures = [",
    );
    out.append(features.as_str());
    out.append("]\n}\n");
    out.append("\n\n");
    let models = process_template(template, renderer);
    out.append(models.as_str());
    out
}

} // verus!
