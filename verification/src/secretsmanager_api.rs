//! The Secrets Manager request layer: JSON requests in, JSON documents out.
//!
//! Handlers take the time and the fresh identifiers a request needs as
//! arguments; `dispatch` draws them.
use vstd::prelude::*;

use crate::http::{body_bool, body_str, plain, plain_response, DispatchResponse, RequestContext, ResponseView};
use crate::json::{
    json_member, json_number_member, json_string, json_string_array, push_json_member, push_json_number_member,
    push_json_string, push_json_string_array,
};
use crate::secretsmanager::{
    copy_strings, copy_version, current_index, is_current, version_views, Secret, SecretVersion, SecretVersionView,
    SecretView, SecretsManagerStore,
};
use crate::seqs::{first_where, is_first_where, lemma_first_where, lemma_first_where_none};
use crate::strmap::StrMap;
use crate::text::{copy_opt, push_str, seconds_of, seconds_of_exec, string_views};

verus! {

// ---------------------------------------------------------------------------
// Responses
// ---------------------------------------------------------------------------

/// A 200 response with a JSON document.
pub open spec fn sm_ok(body: Seq<char>) -> ResponseView {
    plain_response(200, body, "application/x-amz-json-1.1"@)
}

/// An error response: `{"Message":...,"__type":...}`.
pub open spec fn sm_error(code: Seq<char>, message: Seq<char>, status: u16) -> ResponseView {
    plain_response(
        status,
        seq!['{'] + json_member("Message"@, message) + seq![','] + json_member("__type"@, code) + seq!['}'],
        "application/json"@,
    )
}

fn ok_json(body: String) -> (r: DispatchResponse)
    ensures
        r@ == sm_ok(body@),
{
    plain(200, body, "application/x-amz-json-1.1")
}

fn error_json(code: &str, message: &str, status: u16) -> (r: DispatchResponse)
    ensures
        r@ == sm_error(code@, message@, status),
{
    let mut b = String::new();
    b.push('{');
    push_json_member(&mut b, "Message", message);
    b.push(',');
    push_json_member(&mut b, "__type", code);
    b.push('}');
    proof {
        assert(b@ =~= seq!['{'] + json_member("Message"@, message@) + seq![','] + json_member("__type"@, code@) + seq!['}']);
    }
    plain(status, b, "application/json")
}

/// The 400 answer for a missing `SecretId`.
pub open spec fn secret_id_required() -> ResponseView {
    sm_error("ValidationException"@, "SecretId is required"@, 400)
}

/// `Secret {id} not found`
pub open spec fn not_found_message(id: Seq<char>) -> Seq<char> {
    "Secret "@ + id + " not found"@
}

/// The 400 answer for a secret that does not exist.
pub open spec fn secret_not_found(id: Seq<char>) -> ResponseView {
    sm_error("ResourceNotFoundException"@, not_found_message(id), 400)
}

fn not_found(id: &str) -> (r: DispatchResponse)
    ensures
        r@ == secret_not_found(id@),
{
    let mut m = String::new();
    push_str(&mut m, "Secret ");
    push_str(&mut m, id);
    push_str(&mut m, " not found");
    proof {
        assert(m@ =~= not_found_message(id@));
    }
    error_json("ResourceNotFoundException", m.as_str(), 400)
}

/// `{"ARN":...,"Name":...}`
pub open spec fn arn_name_json(s: SecretView) -> Seq<char> {
    seq!['{'] + json_member("ARN"@, s.arn) + seq![','] + json_member("Name"@, s.name) + seq!['}']
}

fn arn_name_doc(s: &Secret) -> (r: String)
    ensures
        r@ == arn_name_json(s@),
{
    let mut b = String::new();
    b.push('{');
    push_json_member(&mut b, "ARN", s.arn.as_str());
    b.push(',');
    push_json_member(&mut b, "Name", s.name.as_str());
    b.push('}');
    proof {
        assert(b@ =~= arn_name_json(s@));
    }
    b
}

// ---------------------------------------------------------------------------
// Finding secrets
// ---------------------------------------------------------------------------

/// The secrets of a store, in storage order.
pub open spec fn secret_views(store: SecretsManagerStore) -> Seq<SecretView> {
    store.secrets.vals_seq().map_values(|s: Secret| s@)
}

/// The position of the first secret whose ARN is `id`.
pub open spec fn arn_position(store: SecretsManagerStore, id: Seq<char>) -> Option<int> {
    first_where(secret_views(store), |s: SecretView| s.arn == id)
}

/// The secret a request names by `id`: the one named `id`, else the first
/// whose ARN is `id`.
pub open spec fn lookup(store: SecretsManagerStore, id: Seq<char>) -> Option<SecretView> {
    if store@.contains_key(id) {
        Some(store@[id])
    } else {
        match arn_position(store, id) {
            Some(i) => Some(secret_views(store)[i]),
            None => None,
        }
    }
}

fn find_by_arn(store: &SecretsManagerStore, id: &str) -> (r: Option<usize>)
    requires
        store.wf(),
    ensures
        match r {
            Some(i) => arn_position(*store, id@) == Some(i as int) && i < store.secrets.vals_seq().len(),
            None => arn_position(*store, id@) is None,
        },
{
    let ghost vs = secret_views(*store);
    let ghost p = |s: SecretView| s.arn == id@;
    let n = store.secrets.len();
    proof {
        store.secrets.lemma_enumeration();
    }
    let mut i: usize = 0;
    while i < n
        invariant
            i <= n,
            n == store.secrets.vals_seq().len(),
            vs == secret_views(*store),
            p == (|s: SecretView| s.arn == id@),
            forall|j: int| 0 <= j < i ==> !p(#[trigger] vs[j]),
        decreases n - i,
    {
        let s = store.secrets.value_at_index(i);
        proof {
            assert(vs[i as int] == s@);
        }
        if s.arn.as_str().eq(id) {
            proof {
                lemma_first_where(vs, p, i as int);
            }
            return Some(i);
        }
        i = i + 1;
    }
    proof {
        lemma_first_where_none(vs, p);
    }
    None
}

/// Finds the secret `id` names (see `lookup`).
fn find_secret<'a>(store: &'a SecretsManagerStore, id: &str) -> (r: Option<&'a Secret>)
    requires
        store.wf(),
    ensures
        match lookup(*store, id@) {
            Some(s) => r matches Some(x) && x@ == s,
            None => r is None,
        },
{
    match store.secrets.get(id) {
        Some(s) => Some(s),
        None => match find_by_arn(store, id) {
            Some(i) => {
                let s = store.secrets.value_at_index(i);
                proof {
                    assert(secret_views(*store)[i as int] == s@);
                }
                Some(s)
            },
            None => None,
        },
    }
}

// ---------------------------------------------------------------------------
// CreateSecret
// ---------------------------------------------------------------------------

/// `arn:aws:secretsmanager:{region}:{account}:secret:{name}-{suffix}`
pub open spec fn secret_arn(region: Seq<char>, account: Seq<char>, name: Seq<char>, suffix: Seq<char>) -> Seq<char> {
    "arn:aws:secretsmanager:"@ + region + ":"@ + account + ":secret:"@ + name + "-"@ + suffix
}

/// A first version, current, holding `secret_string`.
pub open spec fn current_version_spec(version_id: Seq<char>, secret_string: Option<Seq<char>>, now: i64) -> SecretVersionView {
    SecretVersionView {
        version_id,
        secret_string,
        secret_binary: None,
        created: now,
        version_stages: seq!["AWSCURRENT"@],
    }
}

/// A new secret with one current version and no tags.
pub open spec fn new_secret_spec(
    arn: Seq<char>,
    name: Seq<char>,
    description: Seq<char>,
    secret_string: Option<Seq<char>>,
    version_id: Seq<char>,
    now: i64,
) -> SecretView {
    SecretView {
        arn,
        name,
        description,
        created: now,
        last_changed: now,
        deleted: false,
        deletion_date: None,
        versions: seq![current_version_spec(version_id, secret_string, now)],
        tags: Map::empty(),
    }
}

/// The string field `key`, or the empty string.
pub open spec fn str_or_empty(body: Map<Seq<char>, crate::http::BodyValueView>, key: Seq<char>) -> Seq<char> {
    match body_str(body, key) {
        Some(s) => s,
        None => Seq::empty(),
    }
}

fn str_or_empty_exec(ctx: &RequestContext, key: &str) -> (r: String)
    requires
        ctx.wf(),
    ensures
        r@ == str_or_empty(ctx.request_body@, key@),
{
    match ctx.body_str(key) {
        Some(s) => s.clone(),
        None => String::new(),
    }
}

fn opt_body_str(ctx: &RequestContext, key: &str) -> (r: Option<String>)
    requires
        ctx.wf(),
    ensures
        crate::text::opt_view(r) == body_str(ctx.request_body@, key@),
{
    match ctx.body_str(key) {
        Some(s) => Some(s.clone()),
        None => None,
    }
}

fn current_stage_list() -> (r: Vec<String>)
    ensures
        string_views(r@) == seq!["AWSCURRENT"@],
{
    let mut v: Vec<String> = Vec::new();
    v.push("AWSCURRENT".to_string());
    proof {
        assert(string_views(v@) =~= seq!["AWSCURRENT"@]);
    }
    v
}

/// What `handle_create_secret` does: its store change and its response.
pub open spec fn create_secret_outcome(
    s0: Map<Seq<char>, SecretView>,
    s1: Map<Seq<char>, SecretView>,
    ctx: RequestContext,
    suffix: Seq<char>,
    version_id: Seq<char>,
    now: i64,
    r: ResponseView,
) -> bool {
    let body = ctx.request_body@;
    match body_str(body, "Name"@) {
        None => r == sm_error("ValidationException"@, "Name is required"@, 400) && s1 == s0,
        Some(name) => if s0.contains_key(name) && !s0[name].deleted {
            &&& r == sm_error("ResourceExistsException"@, "Secret "@ + name + " already exists"@, 400)
            &&& s1 == s0
        } else {
            let arn = secret_arn(ctx.region@, ctx.account_id@, name, suffix);
            &&& s1 == s0.insert(
                name,
                new_secret_spec(arn, name, str_or_empty(body, "Description"@), body_str(body, "SecretString"@), version_id, now),
            )
            &&& r == sm_ok(
                seq!['{'] + json_member("ARN"@, arn) + seq![','] + json_member("Name"@, name) + seq![','] + json_member(
                    "VersionId"@,
                    version_id,
                ) + seq!['}'],
            )
        },
    }
}

/// CreateSecret: creates secret `Name` (replacing one scheduled for
/// deletion) with ARN suffix `suffix` and a first version `version_id`
/// holding `SecretString`.
pub fn handle_create_secret(
    store: &mut SecretsManagerStore,
    ctx: &RequestContext,
    suffix: &str,
    version_id: &str,
    now: i64,
) -> (r: DispatchResponse)
    requires
        old(store).wf(),
        ctx.wf(),
    ensures
        final(store).wf(),
        create_secret_outcome(old(store)@, final(store)@, *ctx, suffix@, version_id@, now, r@),
{
    let name = match ctx.body_str("Name") {
        Some(n) => n.clone(),
        None => {
            return error_json("ValidationException", "Name is required", 400);
        },
    };
    let description = str_or_empty_exec(ctx, "Description");
    let secret_string = opt_body_str(ctx, "SecretString");
    let mut arn = String::new();
    push_str(&mut arn, "arn:aws:secretsmanager:");
    push_str(&mut arn, ctx.region.as_str());
    push_str(&mut arn, ":");
    push_str(&mut arn, ctx.account_id.as_str());
    push_str(&mut arn, ":secret:");
    push_str(&mut arn, name.as_str());
    push_str(&mut arn, "-");
    push_str(&mut arn, suffix);
    proof {
        assert(arn@ =~= secret_arn(ctx.region@, ctx.account_id@, name@, suffix@));
    }
    match store.secrets.get(name.as_str()) {
        Some(s) => {
            if !s.deleted {
                let mut m = String::new();
                push_str(&mut m, "Secret ");
                push_str(&mut m, name.as_str());
                push_str(&mut m, " already exists");
                proof {
                    assert(m@ =~= "Secret "@ + name@ + " already exists"@);
                }
                return error_json("ResourceExistsException", m.as_str(), 400);
            }
        },
        None => {},
    }
    let version = SecretVersion {
        version_id: version_id.to_string(),
        secret_string,
        secret_binary: None,
        created: now,
        version_stages: current_stage_list(),
    };
    let mut versions: Vec<SecretVersion> = Vec::new();
    versions.push(version);
    let secret = Secret {
        arn: arn.clone(),
        name: name.clone(),
        description,
        created: now,
        last_changed: now,
        deleted: false,
        deletion_date: None,
        versions,
        tags: StrMap::new(),
    };
    proof {
        assert(version_views(secret.versions@) =~= seq![current_version_spec(version_id@, body_str(ctx.request_body@, "SecretString"@), now)]);
    }
    store.secrets.insert(name.clone(), secret);
    let mut b = String::new();
    b.push('{');
    push_json_member(&mut b, "ARN", arn.as_str());
    b.push(',');
    push_json_member(&mut b, "Name", name.as_str());
    b.push(',');
    push_json_member(&mut b, "VersionId", version_id);
    b.push('}');
    proof {
        assert(b@ =~= seq!['{'] + json_member("ARN"@, arn@) + seq![','] + json_member("Name"@, name@) + seq![',']
            + json_member("VersionId"@, version_id@) + seq!['}']);
    }
    ok_json(b)
}

// ---------------------------------------------------------------------------
// GetSecretValue and DescribeSecret
// ---------------------------------------------------------------------------

/// `"key":[...]` for a list of strings.
pub open spec fn json_array_member(key: Seq<char>, items: Seq<Seq<char>>) -> Seq<char> {
    json_string(key) + seq![':'] + json_string_array(items)
}

/// The GetSecretValue document for version `v` of secret `s`, its keys in
/// order.
pub open spec fn secret_value_json(s: SecretView, v: SecretVersionView) -> Seq<char> {
    seq!['{'] + json_member("ARN"@, s.arn) + seq![','] + json_number_member("CreatedDate"@, seconds_of(v.created))
        + seq![','] + json_member("Name"@, s.name) + match v.secret_string {
        Some(ss) => seq![','] + json_member("SecretString"@, ss),
        None => Seq::empty(),
    } + seq![','] + json_member("VersionId"@, v.version_id) + seq![','] + json_array_member(
        "VersionStages"@,
        v.version_stages,
    ) + seq!['}']
}

/// What `handle_get_secret_value` answers.
pub open spec fn get_secret_value_outcome(s0: SecretsManagerStore, ctx: RequestContext, r: ResponseView) -> bool {
    match body_str(ctx.request_body@, "SecretId"@) {
        None => r == secret_id_required(),
        Some(id) => match lookup(s0, id) {
            None => r == sm_error(
                "ResourceNotFoundException"@,
                "Secrets Manager can't find the specified secret."@,
                400,
            ),
            Some(s) => if s.deleted {
                r == sm_error("InvalidRequestException"@, "Secret is scheduled for deletion"@, 400)
            } else {
                match current_index(s) {
                    None => r == sm_error("ResourceNotFoundException"@, "No current version"@, 400),
                    Some(i) => r == sm_ok(secret_value_json(s, s.versions[i])),
                }
            },
        },
    }
}

/// GetSecretValue: the current version of the secret `SecretId` names.
pub fn handle_get_secret_value(store: &SecretsManagerStore, ctx: &RequestContext) -> (r: DispatchResponse)
    requires
        store.wf(),
        ctx.wf(),
    ensures
        get_secret_value_outcome(*store, *ctx, r@),
{
    let id = match ctx.body_str("SecretId") {
        Some(s) => s,
        None => {
            return error_json("ValidationException", "SecretId is required", 400);
        },
    };
    let s = match find_secret(store, id.as_str()) {
        Some(s) => s,
        None => {
            return error_json("ResourceNotFoundException", "Secrets Manager can't find the specified secret.", 400);
        },
    };
    if s.deleted {
        return error_json("InvalidRequestException", "Secret is scheduled for deletion", 400);
    }
    let v = match s.current_version() {
        Some(v) => v,
        None => {
            return error_json("ResourceNotFoundException", "No current version", 400);
        },
    };
    let mut b = String::new();
    b.push('{');
    push_json_member(&mut b, "ARN", s.arn.as_str());
    b.push(',');
    push_json_number_member(&mut b, "CreatedDate", seconds_of_exec(v.created));
    b.push(',');
    push_json_member(&mut b, "Name", s.name.as_str());
    match &v.secret_string {
        Some(ss) => {
            b.push(',');
            push_json_member(&mut b, "SecretString", ss.as_str());
        },
        None => {},
    }
    b.push(',');
    push_json_member(&mut b, "VersionId", v.version_id.as_str());
    b.push(',');
    push_json_string(&mut b, "VersionStages");
    b.push(':');
    push_json_string_array(&mut b, &v.version_stages);
    b.push('}');
    proof {
        assert(b@ =~= secret_value_json(s@, v@));
    }
    ok_json(b)
}

/// The summary of a secret in DescribeSecret and ListSecrets, its keys in
/// declaration order; `DeletedDate` only when there is one.
pub open spec fn summary_json(s: SecretView) -> Seq<char> {
    seq!['{'] + json_member("ARN"@, s.arn) + seq![','] + json_member("Name"@, s.name) + seq![','] + json_member(
        "Description"@,
        s.description,
    ) + seq![','] + json_number_member("CreatedDate"@, seconds_of(s.created)) + seq![','] + json_number_member(
        "LastChangedDate"@,
        seconds_of(s.last_changed),
    ) + match s.deletion_date {
        Some(d) => seq![','] + json_number_member("DeletedDate"@, seconds_of(d)),
        None => Seq::empty(),
    } + seq!['}']
}

#[verifier::spinoff_prover]
#[verifier::rlimit(40)]
fn push_summary(b: &mut String, s: &Secret)
    ensures
        final(b)@ == old(b)@ + summary_json(s@),
{
    b.push('{');
    push_json_member(b, "ARN", s.arn.as_str());
    b.push(',');
    push_json_member(b, "Name", s.name.as_str());
    b.push(',');
    push_json_member(b, "Description", s.description.as_str());
    b.push(',');
    push_json_number_member(b, "CreatedDate", seconds_of_exec(s.created));
    b.push(',');
    push_json_number_member(b, "LastChangedDate", seconds_of_exec(s.last_changed));
    match s.deletion_date {
        Some(d) => {
            b.push(',');
            push_json_number_member(b, "DeletedDate", seconds_of_exec(d));
        },
        None => {},
    }
    b.push('}');
    proof {
        assert(b@ =~= old(b)@ + summary_json(s@));
    }
}

/// What `handle_describe_secret` answers.
pub open spec fn describe_secret_outcome(s0: SecretsManagerStore, ctx: RequestContext, r: ResponseView) -> bool {
    match body_str(ctx.request_body@, "SecretId"@) {
        None => r == secret_id_required(),
        Some(id) => match lookup(s0, id) {
            None => r == secret_not_found(id),
            Some(s) => r == sm_ok(summary_json(s)),
        },
    }
}

/// DescribeSecret: the summary of the secret `SecretId` names.
pub fn handle_describe_secret(store: &SecretsManagerStore, ctx: &RequestContext) -> (r: DispatchResponse)
    requires
        store.wf(),
        ctx.wf(),
    ensures
        describe_secret_outcome(*store, *ctx, r@),
{
    let id = match ctx.body_str("SecretId") {
        Some(s) => s,
        None => {
            return error_json("ValidationException", "SecretId is required", 400);
        },
    };
    match find_secret(store, id.as_str()) {
        None => not_found(id.as_str()),
        Some(s) => {
            let mut b = String::new();
            push_summary(&mut b, s);
            proof {
                assert(b@ =~= summary_json(s@));
            }
            ok_json(b)
        },
    }
}

/// The summaries of `ss`, comma-separated.
pub open spec fn summaries_joined(ss: Seq<SecretView>) -> Seq<char>
    decreases ss.len(),
{
    if ss.len() == 0 {
        Seq::empty()
    } else if ss.len() == 1 {
        summary_json(ss[0])
    } else {
        summaries_joined(ss.drop_last()) + seq![','] + summary_json(ss.last())
    }
}

/// The secrets ListSecrets reports: those not scheduled for deletion, in
/// storage order.
pub open spec fn listed_secrets(store: SecretsManagerStore) -> Seq<SecretView> {
    secret_views(store).filter(|s: SecretView| !s.deleted)
}

/// What `handle_list_secrets` answers.
pub open spec fn list_secrets_outcome(s0: SecretsManagerStore, r: ResponseView) -> bool {
    r == sm_ok("{\"SecretList\":["@ + summaries_joined(listed_secrets(s0)) + "]}"@)
}

/// ListSecrets: the summaries of the secrets not scheduled for deletion.
pub fn handle_list_secrets(store: &SecretsManagerStore) -> (r: DispatchResponse)
    requires
        store.wf(),
    ensures
        list_secrets_outcome(*store, r@),
{
    let ghost vs = secret_views(*store);
    let ghost p = |s: SecretView| !s.deleted;
    let n = store.secrets.len();
    proof {
        store.secrets.lemma_enumeration();
    }
    let mut b = String::new();
    push_str(&mut b, "{\"SecretList\":[");
    let ghost head = b@;
    let mut count: usize = 0;
    let mut i: usize = 0;
    proof {
        reveal(Seq::filter);
        assert(vs.take(0) =~= Seq::<SecretView>::empty());
        assert(vs.take(0).filter(p) =~= Seq::<SecretView>::empty());
    }
    while i < n
        invariant
            i <= n,
            n == store.secrets.vals_seq().len(),
            vs == secret_views(*store),
            p == (|s: SecretView| !s.deleted),
            count == vs.take(i as int).filter(p).len(),
            b@ == head + summaries_joined(vs.take(i as int).filter(p)),
        decreases n - i,
    {
        let s = store.secrets.value_at_index(i);
        let ghost before = vs.take(i as int).filter(p);
        proof {
            reveal(Seq::filter);
            assert(vs[i as int] == s@);
            assert(vs.take(i + 1).drop_last() =~= vs.take(i as int));
            assert(vs.take(i + 1).last() == s@);
        }
        if !s.deleted {
            if count > 0 {
                b.push(',');
            }
            push_summary(&mut b, s);
            proof {
                assert(vs.take(i + 1).filter(p) == before.push(s@));
                assert(before.push(s@).drop_last() =~= before);
                if before.len() == 0 {
                    assert(before.push(s@) =~= seq![s@]);
                }
                assert(b@ =~= head + summaries_joined(vs.take(i + 1).filter(p)));
            }
            count = count + 1;
        } else {
            proof {
                assert(vs.take(i + 1).filter(p) == before);
            }
        }
        i = i + 1;
    }
    push_str(&mut b, "]}");
    proof {
        assert(vs.take(n as int) =~= vs);
        assert(b@ =~= "{\"SecretList\":["@ + summaries_joined(listed_secrets(*store)) + "]}"@);
    }
    ok_json(b)
}

// ---------------------------------------------------------------------------
// Versions
// ---------------------------------------------------------------------------

/// Whether a stage is not `AWSCURRENT`.
pub open spec fn not_current_stage(st: Seq<char>) -> bool {
    st != "AWSCURRENT"@
}

/// A version with the stage `AWSCURRENT` taken off.
pub open spec fn without_current(v: SecretVersionView) -> SecretVersionView {
    SecretVersionView { version_stages: v.version_stages.filter(keeps_stage()), ..v }
}

/// The stage is kept when `AWSCURRENT` is taken off.
pub open spec fn keeps_stage() -> spec_fn(Seq<char>) -> bool {
    |st: Seq<char>| not_current_stage(st)
}

/// A version as PutSecretValue leaves it: a current version loses
/// `AWSCURRENT` and gains `AWSPREVIOUS`; others are unchanged.
pub open spec fn demoted(v: SecretVersionView) -> SecretVersionView {
    if is_current(v) {
        SecretVersionView { version_stages: without_current(v).version_stages.push("AWSPREVIOUS"@), ..v }
    } else {
        v
    }
}

fn stages_without_current(stages: &Vec<String>) -> (r: Vec<String>)
    ensures
        string_views(r@) == string_views(stages@).filter(keeps_stage()),
{
    let ghost sv = string_views(stages@);
    let ghost p = keeps_stage();
    let mut r: Vec<String> = Vec::new();
    let mut i: usize = 0;
    proof {
        reveal(Seq::filter);
        assert(sv.take(0) =~= Seq::<Seq<char>>::empty());
        assert(string_views(r@) =~= sv.take(0).filter(p));
    }
    while i < stages.len()
        invariant
            i <= stages@.len(),
            sv == string_views(stages@),
            p == keeps_stage(),
            string_views(r@) == sv.take(i as int).filter(p),
        decreases stages@.len() - i,
    {
        let ghost before = r@;
        proof {
            reveal(Seq::filter);
            assert(sv.take(i + 1).drop_last() =~= sv.take(i as int));
            assert(sv.take(i + 1).last() == stages@[i as int]@);
        }
        if !stages[i].as_str().eq("AWSCURRENT") {
            r.push(stages[i].clone());
            proof {
                assert(string_views(r@) =~= string_views(before).push(stages@[i as int]@));
            }
        }
        i = i + 1;
    }
    proof {
        assert(sv.take(stages@.len() as int) =~= sv);
    }
    r
}

/// The versions with `AWSCURRENT` taken off each (`demote` false) or
/// turned into `AWSPREVIOUS` (`demote` true).
fn restaged_versions(vs: &Vec<SecretVersion>, demote: bool) -> (r: Vec<SecretVersion>)
    ensures
        demote ==> version_views(r@) == version_views(vs@).map_values(|v: SecretVersionView| demoted(v)),
        !demote ==> version_views(r@) == version_views(vs@).map_values(|v: SecretVersionView| without_current(v)),
{
    let mut r: Vec<SecretVersion> = Vec::new();
    let mut i: usize = 0;
    while i < vs.len()
        invariant
            i <= vs@.len(),
            r@.len() == i,
            forall|j: int|
                0 <= j < i ==> (#[trigger] r@[j])@ == if demote {
                    demoted(vs@[j]@)
                } else {
                    without_current(vs@[j]@)
                },
        decreases vs@.len() - i,
    {
        let v = &vs[i];
        let mut c = copy_version(v);
        let current = crate::secretsmanager::has_current_stage(&v.version_stages);
        if demote {
            if current {
                let mut st = stages_without_current(&v.version_stages);
                st.push("AWSPREVIOUS".to_string());
                proof {
                    assert(string_views(st@) =~= without_current(v@).version_stages.push("AWSPREVIOUS"@));
                }
                c.version_stages = st;
            }
        } else {
            c.version_stages = stages_without_current(&v.version_stages);
        }
        proof {
            assert(c@ == if demote {
                demoted(v@)
            } else {
                without_current(v@)
            });
        }
        r.push(c);
        i = i + 1;
    }
    proof {
        if demote {
            assert(version_views(r@) =~= version_views(vs@).map_values(|v: SecretVersionView| demoted(v)));
        } else {
            assert(version_views(r@) =~= version_views(vs@).map_values(|v: SecretVersionView| without_current(v)));
        }
    }
    r
}

// ---------------------------------------------------------------------------
// PutSecretValue and UpdateSecret
// ---------------------------------------------------------------------------

/// The name under which PutSecretValue finds the secret `id` names: `id`
/// itself when a secret has that name, else the name recorded in the first
/// secret whose ARN is `id`, provided a secret is stored under it.
pub open spec fn put_target(store: SecretsManagerStore, id: Seq<char>) -> Option<Seq<char>> {
    if store@.contains_key(id) {
        Some(id)
    } else {
        match arn_position(store, id) {
            Some(i) => if store@.contains_key(secret_views(store)[i].name) {
                Some(secret_views(store)[i].name)
            } else {
                None
            },
            None => None,
        }
    }
}

/// `{"ARN":...,"Name":...,"VersionId":...,"VersionStages":["AWSCURRENT"]}`
pub open spec fn put_json(s: SecretView, version_id: Seq<char>) -> Seq<char> {
    seq!['{'] + json_member("ARN"@, s.arn) + seq![','] + json_member("Name"@, s.name) + seq![','] + json_member(
        "VersionId"@,
        version_id,
    ) + seq![','] + json_array_member("VersionStages"@, seq!["AWSCURRENT"@]) + seq!['}']
}

/// What `handle_put_secret_value` does: its store change and its response.
pub open spec fn put_secret_value_outcome(
    s0: SecretsManagerStore,
    s1: SecretsManagerStore,
    ctx: RequestContext,
    version_id: Seq<char>,
    now: i64,
    r: ResponseView,
) -> bool {
    let body = ctx.request_body@;
    match body_str(body, "SecretId"@) {
        None => r == secret_id_required() && s1@ == s0@,
        Some(id) => match put_target(s0, id) {
            None => r == secret_not_found(id) && s1@ == s0@,
            Some(n) => {
                let s = s0@[n];
                &&& s1@ == s0@.insert(
                    n,
                    SecretView {
                        versions: s.versions.map_values(|v: SecretVersionView| demoted(v)).push(
                            current_version_spec(version_id, body_str(body, "SecretString"@), now),
                        ),
                        last_changed: now,
                        ..s
                    },
                )
                &&& r == sm_ok(put_json(s, version_id))
            },
        },
    }
}

/// Finds the storage position of the secret stored under `name`, with the
/// facts a caller needs to update it in place.
fn position_of(store: &SecretsManagerStore, name: &str) -> (r: Option<usize>)
    requires
        store.wf(),
    ensures
        match r {
            Some(i) => store@.contains_key(name@) && i == store.secrets.pos(name@) && i < store.secrets.vals_seq().len()
                && store.secrets.vals_seq()[i as int]@ == store@[name@],
            None => !store@.contains_key(name@),
        },
{
    let r = store.secrets.find_pos(name);
    proof {
        if store@.contains_key(name@) {
            store.secrets.lemma_pos(name@);
        }
    }
    r
}

/// PutSecretValue: adds version `version_id` holding `SecretString` to the
/// secret `SecretId` names, as the current version; the version that was
/// current becomes the previous one.
pub fn handle_put_secret_value(
    store: &mut SecretsManagerStore,
    ctx: &RequestContext,
    version_id: &str,
    now: i64,
) -> (r: DispatchResponse)
    requires
        old(store).wf(),
        ctx.wf(),
    ensures
        final(store).wf(),
        put_secret_value_outcome(*old(store), *final(store), *ctx, version_id@, now, r@),
{
    let id = match ctx.body_str("SecretId") {
        Some(s) => s,
        None => {
            return error_json("ValidationException", "SecretId is required", 400);
        },
    };
    let secret_string = opt_body_str(ctx, "SecretString");
    let resolved: Option<String> = if store.secrets.contains_key(id.as_str()) {
        Some(id.clone())
    } else {
        match find_by_arn(store, id.as_str()) {
            Some(i) => {
                let s = store.secrets.value_at_index(i);
                proof {
                    assert(secret_views(*store)[i as int] == s@);
                }
                Some(s.name.clone())
            },
            None => None,
        }
    };
    let name = match resolved {
        Some(n) => n,
        None => {
            return not_found(id.as_str());
        },
    };
    let i = match position_of(store, name.as_str()) {
        Some(i) => i,
        None => {
            return not_found(id.as_str());
        },
    };
    let ghost old_m = store.secrets;
    let ghost s = old_m.vals_seq()[i as int]@;
    let new_version = SecretVersion {
        version_id: version_id.to_string(),
        secret_string,
        secret_binary: None,
        created: now,
        version_stages: current_stage_list(),
    };
    let b;
    {
        let sec = store.secrets.value_at_index_mut(i);
        let mut vs = restaged_versions(&sec.versions, true);
        let ghost vbefore = vs@;
        vs.push(new_version);
        proof {
            assert(version_views(vs@) =~= version_views(vbefore).push(new_version@));
        }
        sec.versions = vs;
        sec.last_changed = now;
        let mut out = String::new();
        out.push('{');
        push_json_member(&mut out, "ARN", sec.arn.as_str());
        out.push(',');
        push_json_member(&mut out, "Name", sec.name.as_str());
        out.push(',');
        push_json_member(&mut out, "VersionId", version_id);
        out.push(',');
        push_json_string(&mut out, "VersionStages");
        out.push(':');
        let stages = current_stage_list();
        push_json_string_array(&mut out, &stages);
        out.push('}');
        proof {
            assert(out@ =~= put_json(s, version_id@));
        }
        b = out;
    }
    proof {
        StrMap::lemma_update_at(&old_m, &store.secrets, name@);
        assert(store.secrets.vals_seq()[i as int]@ == (SecretView {
            versions: s.versions.map_values(|v: SecretVersionView| demoted(v)).push(
                current_version_spec(version_id@, body_str(ctx.request_body@, "SecretString"@), now),
            ),
            last_changed: now,
            ..s
        }));
    }
    ok_json(b)
}

/// What `handle_update_secret` does: its store change and its response.
pub open spec fn update_secret_outcome(
    s0: Map<Seq<char>, SecretView>,
    s1: Map<Seq<char>, SecretView>,
    ctx: RequestContext,
    version_id: Seq<char>,
    now: i64,
    r: ResponseView,
) -> bool {
    let body = ctx.request_body@;
    match body_str(body, "SecretId"@) {
        None => r == secret_id_required() && s1 == s0,
        Some(id) => if !s0.contains_key(id) {
            r == secret_not_found(id) && s1 == s0
        } else {
            let s = s0[id];
            &&& s1 == s0.insert(
                id,
                SecretView {
                    description: match body_str(body, "Description"@) {
                        Some(d) => d,
                        None => s.description,
                    },
                    versions: match body_str(body, "SecretString"@) {
                        Some(ss) => s.versions.map_values(|v: SecretVersionView| without_current(v)).push(
                            current_version_spec(version_id, Some(ss), now),
                        ),
                        None => s.versions,
                    },
                    last_changed: now,
                    ..s
                },
            )
            &&& r == sm_ok(arn_name_json(s))
        },
    }
}

/// UpdateSecret: sets the description of the secret named `SecretId` and,
/// with a `SecretString`, adds it as new current version `version_id`.
pub fn handle_update_secret(
    store: &mut SecretsManagerStore,
    ctx: &RequestContext,
    version_id: &str,
    now: i64,
) -> (r: DispatchResponse)
    requires
        old(store).wf(),
        ctx.wf(),
    ensures
        final(store).wf(),
        update_secret_outcome(old(store)@, final(store)@, *ctx, version_id@, now, r@),
{
    let id = match ctx.body_str("SecretId") {
        Some(s) => s,
        None => {
            return error_json("ValidationException", "SecretId is required", 400);
        },
    };
    let description = opt_body_str(ctx, "Description");
    let secret_string = opt_body_str(ctx, "SecretString");
    let i = match position_of(store, id.as_str()) {
        Some(i) => i,
        None => {
            return not_found(id.as_str());
        },
    };
    let ghost old_m = store.secrets;
    let ghost s = old_m.vals_seq()[i as int]@;
    let b;
    {
        let sec = store.secrets.value_at_index_mut(i);
        match description {
            Some(d) => {
                sec.description = d;
            },
            None => {},
        }
        match secret_string {
            Some(ss) => {
                let mut vs = restaged_versions(&sec.versions, false);
                let ghost vbefore = vs@;
                let nv = SecretVersion {
                    version_id: version_id.to_string(),
                    secret_string: Some(ss),
                    secret_binary: None,
                    created: now,
                    version_stages: current_stage_list(),
                };
                vs.push(nv);
                proof {
                    assert(version_views(vs@) =~= version_views(vbefore).push(nv@));
                }
                sec.versions = vs;
            },
            None => {},
        }
        sec.last_changed = now;
        b = arn_name_doc(sec);
    }
    proof {
        StrMap::lemma_update_at(&old_m, &store.secrets, id@);
    }
    ok_json(b)
}

// ---------------------------------------------------------------------------
// DeleteSecret and RestoreSecret
// ---------------------------------------------------------------------------

/// The recovery window of a deleted secret: 30 days, in milliseconds.
pub open spec fn recovery_window() -> int {
    2_592_000_000
}

/// What `handle_delete_secret` does: its store change and its response.
pub open spec fn delete_secret_outcome(
    s0: Map<Seq<char>, SecretView>,
    s1: Map<Seq<char>, SecretView>,
    ctx: RequestContext,
    now: i64,
    r: ResponseView,
) -> bool {
    let body = ctx.request_body@;
    match body_str(body, "SecretId"@) {
        None => r == secret_id_required() && s1 == s0,
        Some(id) => if !s0.contains_key(id) {
            r == secret_not_found(id) && s1 == s0
        } else if body_bool(body, "ForceDeleteWithoutRecovery"@) == Some(true) {
            s1 == s0.remove(id) && r == sm_ok(arn_name_json(s0[id]))
        } else {
            let s = s0[id];
            let d = now + recovery_window();
            &&& s1 == s0.insert(id, SecretView { deleted: true, deletion_date: Some(d as i64), ..s })
            &&& r == sm_ok(
                seq!['{'] + json_member("ARN"@, s.arn) + seq![','] + json_number_member(
                    "DeletionDate"@,
                    seconds_of(d as i64),
                ) + seq![','] + json_member("Name"@, s.name) + seq!['}'],
            )
        },
    }
}

/// DeleteSecret: removes the secret named `SecretId` at once with
/// `ForceDeleteWithoutRecovery`, else schedules it for deletion at the end
/// of the recovery window.
pub fn handle_delete_secret(store: &mut SecretsManagerStore, ctx: &RequestContext, now: i64) -> (r: DispatchResponse)
    requires
        old(store).wf(),
        ctx.wf(),
        -crate::deps::clock_bound() <= now <= crate::deps::clock_bound(),
    ensures
        final(store).wf(),
        delete_secret_outcome(old(store)@, final(store)@, *ctx, now, r@),
{
    let id = match ctx.body_str("SecretId") {
        Some(s) => s,
        None => {
            return error_json("ValidationException", "SecretId is required", 400);
        },
    };
    let force = match ctx.body_bool("ForceDeleteWithoutRecovery") {
        Some(b) => b,
        None => false,
    };
    let i = match position_of(store, id.as_str()) {
        Some(i) => i,
        None => {
            return not_found(id.as_str());
        },
    };
    if force {
        let b = arn_name_doc(store.secrets.value_at_index(i));
        store.secrets.remove(id.as_str());
        return ok_json(b);
    }
    let deletion_date: i64 = now + 2_592_000_000;
    let ghost old_m = store.secrets;
    let ghost s = old_m.vals_seq()[i as int]@;
    let b;
    {
        let sec = store.secrets.value_at_index_mut(i);
        sec.deleted = true;
        sec.deletion_date = Some(deletion_date);
        let mut out = String::new();
        out.push('{');
        push_json_member(&mut out, "ARN", sec.arn.as_str());
        out.push(',');
        push_json_number_member(&mut out, "DeletionDate", seconds_of_exec(deletion_date));
        out.push(',');
        push_json_member(&mut out, "Name", sec.name.as_str());
        out.push('}');
        b = out;
    }
    proof {
        StrMap::lemma_update_at(&old_m, &store.secrets, id@);
        assert(b@ =~= seq!['{'] + json_member("ARN"@, s.arn) + seq![','] + json_number_member(
            "DeletionDate"@,
            seconds_of(deletion_date),
        ) + seq![','] + json_member("Name"@, s.name) + seq!['}']);
    }
    ok_json(b)
}

/// What `handle_restore_secret` does: its store change and its response.
pub open spec fn restore_secret_outcome(
    s0: Map<Seq<char>, SecretView>,
    s1: Map<Seq<char>, SecretView>,
    ctx: RequestContext,
    r: ResponseView,
) -> bool {
    match body_str(ctx.request_body@, "SecretId"@) {
        None => r == secret_id_required() && s1 == s0,
        Some(id) => if !s0.contains_key(id) {
            r == secret_not_found(id) && s1 == s0
        } else {
            let s = s0[id];
            &&& s1 == s0.insert(id, SecretView { deleted: false, deletion_date: None, ..s })
            &&& r == sm_ok(arn_name_json(s))
        },
    }
}

/// RestoreSecret: cancels the scheduled deletion of the secret named
/// `SecretId`.
pub fn handle_restore_secret(store: &mut SecretsManagerStore, ctx: &RequestContext) -> (r: DispatchResponse)
    requires
        old(store).wf(),
        ctx.wf(),
    ensures
        final(store).wf(),
        restore_secret_outcome(old(store)@, final(store)@, *ctx, r@),
{
    let id = match ctx.body_str("SecretId") {
        Some(s) => s,
        None => {
            return error_json("ValidationException", "SecretId is required", 400);
        },
    };
    let i = match position_of(store, id.as_str()) {
        Some(i) => i,
        None => {
            return not_found(id.as_str());
        },
    };
    let ghost old_m = store.secrets;
    let b;
    {
        let sec = store.secrets.value_at_index_mut(i);
        sec.deleted = false;
        sec.deletion_date = None;
        b = arn_name_doc(sec);
    }
    proof {
        StrMap::lemma_update_at(&old_m, &store.secrets, id@);
    }
    ok_json(b)
}

// ---------------------------------------------------------------------------
// Dispatch
// ---------------------------------------------------------------------------

/// What handling a request does, by its operation: each supported
/// operation does what its handler does; any other is answered with a 501
/// `NotImplementedException` and changes nothing.  `suffix` is the ARN
/// suffix of a new secret and `version_id` the id of a new version.
pub open spec fn dispatch_outcome(
    s0: SecretsManagerStore,
    s1: SecretsManagerStore,
    ctx: RequestContext,
    now: i64,
    suffix: Seq<char>,
    version_id: Seq<char>,
    r: ResponseView,
) -> bool {
    let op = ctx.operation@;
    if op == "CreateSecret"@ {
        create_secret_outcome(s0@, s1@, ctx, suffix, version_id, now, r)
    } else if op == "GetSecretValue"@ {
        s1 == s0 && get_secret_value_outcome(s0, ctx, r)
    } else if op == "PutSecretValue"@ {
        put_secret_value_outcome(s0, s1, ctx, version_id, now, r)
    } else if op == "UpdateSecret"@ {
        update_secret_outcome(s0@, s1@, ctx, version_id, now, r)
    } else if op == "DescribeSecret"@ {
        s1 == s0 && describe_secret_outcome(s0, ctx, r)
    } else if op == "ListSecrets"@ {
        s1 == s0 && list_secrets_outcome(s0, r)
    } else if op == "DeleteSecret"@ {
        delete_secret_outcome(s0@, s1@, ctx, now, r)
    } else if op == "RestoreSecret"@ {
        restore_secret_outcome(s0@, s1@, ctx, r)
    } else {
        s1 == s0 && r == sm_error("NotImplementedException"@, "Operation not implemented: "@ + op, 501)
    }
}

/// Handles one request at time `now`, giving a new secret the ARN suffix
/// `suffix` and a new version the id `version_id`.
pub fn dispatch_at(
    store: &mut SecretsManagerStore,
    ctx: &RequestContext,
    now: i64,
    suffix: &str,
    version_id: &str,
) -> (r: Result<DispatchResponse, crate::http::DispatchError>)
    requires
        old(store).wf(),
        ctx.wf(),
        -crate::deps::clock_bound() <= now <= crate::deps::clock_bound(),
    ensures
        final(store).wf(),
        r matches Ok(resp) && dispatch_outcome(*old(store), *final(store), *ctx, now, suffix@, version_id@, resp@),
{
    let op = ctx.operation.as_str();
    let resp = if op.eq("CreateSecret") {
        handle_create_secret(store, ctx, suffix, version_id, now)
    } else if op.eq("GetSecretValue") {
        handle_get_secret_value(store, ctx)
    } else if op.eq("PutSecretValue") {
        handle_put_secret_value(store, ctx, version_id, now)
    } else if op.eq("UpdateSecret") {
        handle_update_secret(store, ctx, version_id, now)
    } else if op.eq("DescribeSecret") {
        handle_describe_secret(store, ctx)
    } else if op.eq("ListSecrets") {
        handle_list_secrets(store)
    } else if op.eq("DeleteSecret") {
        handle_delete_secret(store, ctx, now)
    } else if op.eq("RestoreSecret") {
        handle_restore_secret(store, ctx)
    } else {
        let mut m = String::new();
        push_str(&mut m, "Operation not implemented: ");
        push_str(&mut m, op);
        error_json("NotImplementedException", m.as_str(), 501)
    };
    Ok(resp)
}

/// The first six characters of a fresh identifier: six lowercase hex
/// digits.
fn short_id() -> (r: String)
    ensures
        r@.len() == 6,
        forall|i: int| 0 <= i < 6 ==> crate::deps::is_lower_hex_char(#[trigger] r@[i]),
{
    let id = crate::deps::new_uuid();
    let c = crate::text::chars_of(id.as_str());
    let n: usize = if c.len() < 6 {
        c.len()
    } else {
        6
    };
    let r = crate::text::string_of(crate::text::slice_chars(c.as_slice(), 0, n).as_slice());
    proof {
        assert forall|i: int| 0 <= i < 6 implies crate::deps::is_lower_hex_char(#[trigger] r@[i]) by {
            assert(!crate::deps::uuid_hyphen_at(i));
            assert(r@[i] == id@[i]);
        }
    }
    r
}

/// Handles one request now, with fresh identifiers.
pub fn dispatch(store: &mut SecretsManagerStore, ctx: &RequestContext) -> (r: Result<DispatchResponse, crate::http::DispatchError>)
    requires
        old(store).wf(),
        ctx.wf(),
    ensures
        final(store).wf(),
        r is Ok,
        exists|now: i64, suffix: Seq<char>, version_id: Seq<char>|
            crate::deps::is_hex_text(suffix, 6) && crate::deps::is_uuid_text(version_id) && #[trigger] dispatch_outcome(*old(store), *final(store), *ctx, now, suffix, version_id, r->Ok_0@),
{
    let now = crate::deps::now_millis();
    let suffix = short_id();
    let version_id = crate::deps::new_uuid();
    dispatch_at(store, ctx, now, suffix.as_str(), version_id.as_str())
}

} // verus!
