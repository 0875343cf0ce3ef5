use vstd::prelude::*;

verus! {

use crate::client::{trim_trailing_slashes, ApiClient};
use crate::errors::CliError;
use crate::json::{
    array_values, body_object, body_objects, body_value, find_field, lines_view, members_view,
    objects_view, parse_array_values, parse_body_object, parse_body_objects, parse_body_value,
    FieldVal, FieldValV, JsonMember, MemberV,
};
use crate::profile::{upsert, CliConfig, Profile, ProfileV};
use crate::storefile::{append_string, ser_string};
use crate::text::{
    chars_to_string, copy_chars, dec_rep, dec_rep_signed, i64_to_chars, push_chars,
    push_str_chars, u64_to_chars,
};

/// One parsed invocation: the subcommand and the profile it runs under.
pub struct Cli {
    pub command: Commands,
    pub profile: String,
}

pub enum Commands {
    Login { url: String, api_key: String },
    Config { command: ConfigCommands },
    Apps { command: AppsCommands },
    Secrets { command: SecretsCommands },
}

pub enum ConfigCommands {
    List { environment: String },
    Get { environment: String, key: String },
    SetValue { environment: String, key: String, value: String, config_type: String, secret: bool },
    Update {
        id: String,
        value: String,
        config_type: String,
        description: Option<String>,
        secret: bool,
    },
    Delete { id: String },
}

pub enum AppsCommands {
    List,
    Create { name: String, description: Option<String>, owner_email: String },
    Show { id: String },
    Update { id: String, name: Option<String>, description: Option<String> },
}

pub enum SecretsCommands {
    List { application: String, environment: Option<String> },
    Get { id: String },
    Create {
        key: String,
        encrypted_value: String,
        description: Option<String>,
        application: String,
        environment: Option<String>,
        rotation_policy: String,
    },
    Rotate { id: String, new_encrypted_value: String, rotated_by: String },
    Deactivate { id: String },
    Delete { id: String },
    Rotations { secret_id: String },
    AppRotations { application: String },
    Validate { application: Option<String> },
    Stats { application: Option<String> },
    Recent { days: i32 },
    RotateDue { application: Option<String> },
}

/// The verb of one request.
#[derive(Debug, Clone, Copy, PartialEq, Eq, Structural)]
pub enum Method {
    Get,
    Post,
    Put,
    Delete,
}

/// One planned request: everything the transport needs besides credentials.
pub struct Plan {
    pub method: Method,
    pub path: String,
    pub body: Option<String>,
}

/// How a written value is shown: scalars as written, strings re-quoted, kept
/// raw text as received.
pub open spec fn value_text(v: FieldValV) -> Seq<char> {
    match v {
        FieldValV::Null => "null"@,
        FieldValV::Bool(b) => bool_text(b),
        FieldValV::Num(t) => t,
        FieldValV::Str(t) => ser_string(t),
        FieldValV::Raw(t) => t,
    }
}

pub open spec fn bool_text(b: bool) -> Seq<char> {
    if b {
        "true"@
    } else {
        "false"@
    }
}

/// A written optional string: the string token, or the null word.
pub open spec fn opt_string_text(o: Option<String>) -> Seq<char> {
    match o {
        Some(s) => ser_string(s@),
        None => "null"@,
    }
}

/// The verb of each subcommand that makes a request.
pub open spec fn method_of(cmd: Commands) -> Method {
    match cmd {
        Commands::Login { .. } => Method::Get,
        Commands::Config { command } => match command {
            ConfigCommands::List { .. } => Method::Get,
            ConfigCommands::Get { .. } => Method::Get,
            ConfigCommands::SetValue { .. } => Method::Post,
            ConfigCommands::Update { .. } => Method::Put,
            ConfigCommands::Delete { .. } => Method::Delete,
        },
        Commands::Apps { command } => match command {
            AppsCommands::List => Method::Get,
            AppsCommands::Create { .. } => Method::Post,
            AppsCommands::Show { .. } => Method::Get,
            AppsCommands::Update { .. } => Method::Put,
        },
        Commands::Secrets { command } => match command {
            SecretsCommands::List { .. } => Method::Get,
            SecretsCommands::Get { .. } => Method::Get,
            SecretsCommands::Create { .. } => Method::Post,
            SecretsCommands::Rotate { .. } => Method::Post,
            SecretsCommands::Deactivate { .. } => Method::Post,
            SecretsCommands::Delete { .. } => Method::Delete,
            SecretsCommands::Rotations { .. } => Method::Get,
            SecretsCommands::AppRotations { .. } => Method::Get,
            SecretsCommands::Validate { .. } => Method::Get,
            SecretsCommands::Stats { .. } => Method::Get,
            SecretsCommands::Recent { .. } => Method::Get,
            SecretsCommands::RotateDue { .. } => Method::Post,
        },
    }
}

/// The resource path of each subcommand that makes a request.
pub open spec fn path_of(cmd: Commands) -> Seq<char> {
    match cmd {
        Commands::Login { .. } => Seq::empty(),
        Commands::Config { command } => match command {
            ConfigCommands::List { environment } => "/api/v1/configurations/environment/"@
                + environment@,
            ConfigCommands::Get { environment, key } => "/api/v1/configurations/environment/"@
                + environment@ + "/key/"@ + key@,
            ConfigCommands::SetValue { .. } => "/api/v1/configurations"@,
            ConfigCommands::Update { id, .. } => "/api/v1/configurations/"@ + id@,
            ConfigCommands::Delete { id } => "/api/v1/configurations/"@ + id@,
        },
        Commands::Apps { command } => match command {
            AppsCommands::List => "/api/v1/applications"@,
            AppsCommands::Create { .. } => "/api/v1/applications"@,
            AppsCommands::Show { id } => "/api/v1/applications/"@ + id@,
            AppsCommands::Update { id, .. } => "/api/v1/applications/"@ + id@,
        },
        Commands::Secrets { command } => match command {
            SecretsCommands::List { application, environment } => match environment {
                Some(env) => "/api/v1/secrets/application/"@ + application@ + "/environment/"@
                    + env@,
                None => "/api/v1/secrets/application/"@ + application@,
            },
            SecretsCommands::Get { id } => "/api/v1/secrets/"@ + id@ + "/decrypt"@,
            SecretsCommands::Create { .. } => "/api/v1/secrets"@,
            SecretsCommands::Rotate { id, .. } => "/api/v1/secrets/"@ + id@ + "/rotate"@,
            SecretsCommands::Deactivate { id } => "/api/v1/secrets/"@ + id@ + "/deactivate"@,
            SecretsCommands::Delete { id } => "/api/v1/secrets/"@ + id@,
            SecretsCommands::Rotations { secret_id } => "/api/v1/secrets/"@ + secret_id@
                + "/rotations"@,
            SecretsCommands::AppRotations { application } => "/api/v1/secrets/application/"@
                + application@ + "/rotations"@,
            SecretsCommands::Validate { application } => match application {
                Some(a) => "/api/v1/secrets/validate?applicationId="@ + a@,
                None => "/api/v1/secrets/validate"@,
            },
            SecretsCommands::Stats { application } => match application {
                Some(a) => "/api/v1/secrets/stats?applicationId="@ + a@,
                None => "/api/v1/secrets/stats"@,
            },
            SecretsCommands::Recent { days } => "/api/v1/secrets/rotations/recent?days="@
                + dec_rep_signed(days as int),
            SecretsCommands::RotateDue { application } => match application {
                Some(a) => "/api/v1/secrets/rotate-due?applicationId="@ + a@,
                None => "/api/v1/secrets/rotate-due"@,
            },
        },
    }
}

/// The request body of each subcommand that sends one.
pub open spec fn body_of(cmd: Commands) -> Option<Seq<char>> {
    match cmd {
        Commands::Login { .. } => None,
        Commands::Config { command } => match command {
            ConfigCommands::List { .. } => None,
            ConfigCommands::Get { .. } => None,
            ConfigCommands::SetValue { environment, key, value, config_type, secret } => Some(
                "{\"key\":"@ + ser_string(key@) + ",\"value\":"@ + ser_string(value@)
                    + ",\"type\":"@ + ser_string(config_type@) + ",\"description\":null"@
                    + ",\"isSecret\":"@ + bool_text(secret) + ",\"environmentId\":"@ + ser_string(
                    environment@,
                ) + "}"@,
            ),
            ConfigCommands::Update { id: _, value, config_type, description, secret } => Some(
                "{\"value\":"@ + ser_string(value@) + ",\"type\":"@ + ser_string(config_type@)
                    + ",\"description\":"@ + opt_string_text(description) + ",\"isSecret\":"@
                    + bool_text(secret) + "}"@,
            ),
            ConfigCommands::Delete { .. } => None,
        },
        Commands::Apps { command } => match command {
            AppsCommands::List => None,
            AppsCommands::Create { name, description, owner_email } => Some(
                "{\"name\":"@ + ser_string(name@) + ",\"description\":"@ + opt_string_text(
                    description,
                ) + ",\"ownerEmail\":"@ + ser_string(owner_email@) + "}"@,
            ),
            AppsCommands::Show { .. } => None,
            AppsCommands::Update { id: _, name, description } => Some(
                "{\"name\":"@ + opt_string_text(name) + ",\"description\":"@ + opt_string_text(
                    description,
                ) + "}"@,
            ),
        },
        Commands::Secrets { command } => match command {
            SecretsCommands::Create {
                key,
                encrypted_value,
                description,
                application,
                environment,
                rotation_policy,
            } => Some(
                "{\"key\":"@ + ser_string(key@) + ",\"encryptedValue\":"@ + ser_string(
                    encrypted_value@,
                ) + ",\"description\":"@ + opt_string_text(description) + ",\"applicationId\":"@
                    + ser_string(application@) + ",\"environmentId\":"@ + opt_string_text(
                    environment,
                ) + ",\"rotationPolicy\":"@ + ser_string(rotation_policy@) + "}"@,
            ),
            SecretsCommands::Rotate { id: _, new_encrypted_value, rotated_by } => Some(
                "{\"newEncryptedValue\":"@ + ser_string(new_encrypted_value@) + ",\"rotatedBy\":"@
                    + ser_string(rotated_by@) + "}"@,
            ),
            SecretsCommands::Deactivate { .. } => Some("{}"@),
            SecretsCommands::RotateDue { .. } => Some("{}"@),
            _ => None,
        },
    }
}

/// Whether the subcommand talks to the service at all. Only login stays
/// local.
pub open spec fn makes_request(cmd: Commands) -> bool {
    !(cmd is Login)
}

/// The one request a subcommand performs, or nothing for login, which stays
/// local. Exactly one request is planned per invocation.
pub fn plan_request(cmd: &Commands) -> (r: Option<Plan>)
    ensures
        match r {
            Some(p) => makes_request(*cmd) && p.method == method_of(*cmd) && p.path@ == path_of(
                *cmd,
            ) && (match (p.body, body_of(*cmd)) {
                (Some(b), Some(sb)) => b@ == sb,
                (None, None) => true,
                _ => false,
            }),
            None => !makes_request(*cmd),
        },
{
    let mut path: Vec<char> = Vec::new();
    let mut body: Vec<char> = Vec::new();
    let mut has_body = false;
    let method: Method;
    match cmd {
        Commands::Login { .. } => {
            return None;
        },
        Commands::Config { command } => match command {
            ConfigCommands::List { environment } => {
                method = Method::Get;
                push_str_chars(&mut path, "/api/v1/configurations/environment/");
                push_str_chars(&mut path, environment.as_str());
            },
            ConfigCommands::Get { environment, key } => {
                method = Method::Get;
                push_str_chars(&mut path, "/api/v1/configurations/environment/");
                push_str_chars(&mut path, environment.as_str());
                push_str_chars(&mut path, "/key/");
                push_str_chars(&mut path, key.as_str());
            },
            ConfigCommands::SetValue { environment, key, value, config_type, secret } => {
                method = Method::Post;
                push_str_chars(&mut path, "/api/v1/configurations");
                has_body = true;
                push_str_chars(&mut body, "{\"key\":");
                append_string(&mut body, key.as_str());
                push_str_chars(&mut body, ",\"value\":");
                append_string(&mut body, value.as_str());
                push_str_chars(&mut body, ",\"type\":");
                append_string(&mut body, config_type.as_str());
                push_str_chars(&mut body, ",\"description\":null");
                push_str_chars(&mut body, ",\"isSecret\":");
                append_bool(&mut body, *secret);
                push_str_chars(&mut body, ",\"environmentId\":");
                append_string(&mut body, environment.as_str());
                push_str_chars(&mut body, "}");
            },
            ConfigCommands::Update { id, value, config_type, description, secret } => {
                method = Method::Put;
                push_str_chars(&mut path, "/api/v1/configurations/");
                push_str_chars(&mut path, id.as_str());
                has_body = true;
                push_str_chars(&mut body, "{\"value\":");
                append_string(&mut body, value.as_str());
                push_str_chars(&mut body, ",\"type\":");
                append_string(&mut body, config_type.as_str());
                push_str_chars(&mut body, ",\"description\":");
                append_opt_string(&mut body, description);
                push_str_chars(&mut body, ",\"isSecret\":");
                append_bool(&mut body, *secret);
                push_str_chars(&mut body, "}");
            },
            ConfigCommands::Delete { id } => {
                method = Method::Delete;
                push_str_chars(&mut path, "/api/v1/configurations/");
                push_str_chars(&mut path, id.as_str());
            },
        },
        Commands::Apps { command } => match command {
            AppsCommands::List => {
                method = Method::Get;
                push_str_chars(&mut path, "/api/v1/applications");
            },
            AppsCommands::Create { name, description, owner_email } => {
                method = Method::Post;
                push_str_chars(&mut path, "/api/v1/applications");
                has_body = true;
                push_str_chars(&mut body, "{\"name\":");
                append_string(&mut body, name.as_str());
                push_str_chars(&mut body, ",\"description\":");
                append_opt_string(&mut body, description);
                push_str_chars(&mut body, ",\"ownerEmail\":");
                append_string(&mut body, owner_email.as_str());
                push_str_chars(&mut body, "}");
            },
            AppsCommands::Show { id } => {
                method = Method::Get;
                push_str_chars(&mut path, "/api/v1/applications/");
                push_str_chars(&mut path, id.as_str());
            },
            AppsCommands::Update { id, name, description } => {
                method = Method::Put;
                push_str_chars(&mut path, "/api/v1/applications/");
                push_str_chars(&mut path, id.as_str());
                has_body = true;
                push_str_chars(&mut body, "{\"name\":");
                append_opt_string(&mut body, name);
                push_str_chars(&mut body, ",\"description\":");
                append_opt_string(&mut body, description);
                push_str_chars(&mut body, "}");
            },
        },
        Commands::Secrets { command } => match command {
            SecretsCommands::List { application, environment } => {
                method = Method::Get;
                push_str_chars(&mut path, "/api/v1/secrets/application/");
                push_str_chars(&mut path, application.as_str());
                match environment {
                    Some(env) => {
                        push_str_chars(&mut path, "/environment/");
                        push_str_chars(&mut path, env.as_str());
                    },
                    None => {},
                }
            },
            SecretsCommands::Get { id } => {
                method = Method::Get;
                push_str_chars(&mut path, "/api/v1/secrets/");
                push_str_chars(&mut path, id.as_str());
                push_str_chars(&mut path, "/decrypt");
            },
            SecretsCommands::Create {
                key,
                encrypted_value,
                description,
                application,
                environment,
                rotation_policy,
            } => {
                method = Method::Post;
                push_str_chars(&mut path, "/api/v1/secrets");
                has_body = true;
                push_str_chars(&mut body, "{\"key\":");
                append_string(&mut body, key.as_str());
                push_str_chars(&mut body, ",\"encryptedValue\":");
                append_string(&mut body, encrypted_value.as_str());
                push_str_chars(&mut body, ",\"description\":");
                append_opt_string(&mut body, description);
                push_str_chars(&mut body, ",\"applicationId\":");
                append_string(&mut body, application.as_str());
                push_str_chars(&mut body, ",\"environmentId\":");
                append_opt_string(&mut body, environment);
                push_str_chars(&mut body, ",\"rotationPolicy\":");
                append_string(&mut body, rotation_policy.as_str());
                push_str_chars(&mut body, "}");
            },
            SecretsCommands::Rotate { id, new_encrypted_value, rotated_by } => {
                method = Method::Post;
                push_str_chars(&mut path, "/api/v1/secrets/");
                push_str_chars(&mut path, id.as_str());
                push_str_chars(&mut path, "/rotate");
                has_body = true;
                push_str_chars(&mut body, "{\"newEncryptedValue\":");
                append_string(&mut body, new_encrypted_value.as_str());
                push_str_chars(&mut body, ",\"rotatedBy\":");
                append_string(&mut body, rotated_by.as_str());
                push_str_chars(&mut body, "}");
            },
            SecretsCommands::Deactivate { id } => {
                method = Method::Post;
                push_str_chars(&mut path, "/api/v1/secrets/");
                push_str_chars(&mut path, id.as_str());
                push_str_chars(&mut path, "/deactivate");
                has_body = true;
                push_str_chars(&mut body, "{}");
            },
            SecretsCommands::Delete { id } => {
                method = Method::Delete;
                push_str_chars(&mut path, "/api/v1/secrets/");
                push_str_chars(&mut path, id.as_str());
            },
            SecretsCommands::Rotations { secret_id } => {
                method = Method::Get;
                push_str_chars(&mut path, "/api/v1/secrets/");
                push_str_chars(&mut path, secret_id.as_str());
                push_str_chars(&mut path, "/rotations");
            },
            SecretsCommands::AppRotations { application } => {
                method = Method::Get;
                push_str_chars(&mut path, "/api/v1/secrets/application/");
                push_str_chars(&mut path, application.as_str());
                push_str_chars(&mut path, "/rotations");
            },
            SecretsCommands::Validate { application } => {
                method = Method::Get;
                match application {
                    Some(a) => {
                        push_str_chars(&mut path, "/api/v1/secrets/validate?applicationId=");
                        push_str_chars(&mut path, a.as_str());
                    },
                    None => {
                        push_str_chars(&mut path, "/api/v1/secrets/validate");
                    },
                }
            },
            SecretsCommands::Stats { application } => {
                method = Method::Get;
                match application {
                    Some(a) => {
                        push_str_chars(&mut path, "/api/v1/secrets/stats?applicationId=");
                        push_str_chars(&mut path, a.as_str());
                    },
                    None => {
                        push_str_chars(&mut path, "/api/v1/secrets/stats");
                    },
                }
            },
            SecretsCommands::Recent { days } => {
                method = Method::Get;
                push_str_chars(&mut path, "/api/v1/secrets/rotations/recent?days=");
                let digits = i64_to_chars(*days as i64);
                push_chars(&mut path, &digits);
            },
            SecretsCommands::RotateDue { application } => {
                method = Method::Post;
                match application {
                    Some(a) => {
                        push_str_chars(&mut path, "/api/v1/secrets/rotate-due?applicationId=");
                        push_str_chars(&mut path, a.as_str());
                    },
                    None => {
                        push_str_chars(&mut path, "/api/v1/secrets/rotate-due");
                    },
                }
                has_body = true;
                push_str_chars(&mut body, "{}");
            },
        },
    }
    let body_opt = if has_body {
        Some(chars_to_string(&body))
    } else {
        None
    };
    Some(Plan { method, path: chars_to_string(&path), body: body_opt })
}

/// Appends the written form of a boolean.
fn append_bool(out: &mut Vec<char>, b: bool)
    ensures
        final(out)@ == old(out)@ + bool_text(b),
{
    if b {
        push_str_chars(out, "true");
    } else {
        push_str_chars(out, "false");
    }
}

/// Appends a written optional string.
fn append_opt_string(out: &mut Vec<char>, o: &Option<String>)
    ensures
        final(out)@ == old(out)@ + opt_string_text(*o),
{
    match o {
        Some(s) => append_string(out, s.as_str()),
        None => push_str_chars(out, "null"),
    }
}

// ---------------------------------------------------------------------------
// Reading typed fields out of a decoded object.
// ---------------------------------------------------------------------------

/// A required string field.
pub open spec fn str_field(ms: Seq<MemberV>, key: Seq<char>) -> Option<Seq<char>> {
    match find_field(ms, key) {
        Some(FieldValV::Str(t)) => Some(t),
        _ => None,
    }
}

/// An optional string field: absent or null reads as empty.
pub open spec fn opt_str_field(ms: Seq<MemberV>, key: Seq<char>) -> Option<Seq<char>> {
    match find_field(ms, key) {
        Some(FieldValV::Str(t)) => Some(t),
        Some(FieldValV::Null) => Some(Seq::empty()),
        None => Some(Seq::empty()),
        _ => None,
    }
}

/// A required boolean field.
pub open spec fn bool_field(ms: Seq<MemberV>, key: Seq<char>) -> Option<bool> {
    match find_field(ms, key) {
        Some(FieldValV::Bool(b)) => Some(b),
        _ => None,
    }
}

/// A required numeric field, kept as its written text.
pub open spec fn num_field(ms: Seq<MemberV>, key: Seq<char>) -> Option<Seq<char>> {
    match find_field(ms, key) {
        Some(FieldValV::Num(t)) => Some(t),
        _ => None,
    }
}

/// A required nested field, kept as its raw written text.
pub open spec fn raw_field(ms: Seq<MemberV>, key: Seq<char>) -> Option<Seq<char>> {
    match find_field(ms, key) {
        Some(FieldValV::Raw(t)) => Some(t),
        _ => None,
    }
}

fn field_str(ms: &Vec<JsonMember>, key: &str) -> (r: Option<Vec<char>>)
    ensures
        match r {
            Some(v) => str_field(members_view(ms@), key@) == Some(v@),
            None => str_field(members_view(ms@), key@) is None,
        },
{
    match crate::json::get_field(ms, key) {
        Some(fv) => match fv {
            FieldVal::Str(t) => Some(copy_chars(t)),
            _ => None,
        },
        None => None,
    }
}

fn field_opt_str(ms: &Vec<JsonMember>, key: &str) -> (r: Option<Vec<char>>)
    ensures
        match r {
            Some(v) => opt_str_field(members_view(ms@), key@) == Some(v@),
            None => opt_str_field(members_view(ms@), key@) is None,
        },
{
    match crate::json::get_field(ms, key) {
        Some(fv) => match fv {
            FieldVal::Str(t) => Some(copy_chars(t)),
            FieldVal::Null => {
                let empty: Vec<char> = Vec::new();
                proof {
                    assert(empty@ =~= Seq::<char>::empty());
                }
                Some(empty)
            },
            _ => None,
        },
        None => {
            let empty: Vec<char> = Vec::new();
            proof {
                assert(empty@ =~= Seq::<char>::empty());
            }
            Some(empty)
        },
    }
}

fn field_bool(ms: &Vec<JsonMember>, key: &str) -> (r: Option<bool>)
    ensures
        r == bool_field(members_view(ms@), key@),
{
    match crate::json::get_field(ms, key) {
        Some(fv) => match fv {
            FieldVal::Bool(b) => Some(*b),
            _ => None,
        },
        None => None,
    }
}

fn field_num(ms: &Vec<JsonMember>, key: &str) -> (r: Option<Vec<char>>)
    ensures
        match r {
            Some(v) => num_field(members_view(ms@), key@) == Some(v@),
            None => num_field(members_view(ms@), key@) is None,
        },
{
    match crate::json::get_field(ms, key) {
        Some(fv) => match fv {
            FieldVal::Num(t) => Some(copy_chars(t)),
            _ => None,
        },
        None => None,
    }
}

fn field_raw(ms: &Vec<JsonMember>, key: &str) -> (r: Option<Vec<char>>)
    ensures
        match r {
            Some(v) => raw_field(members_view(ms@), key@) == Some(v@),
            None => raw_field(members_view(ms@), key@) is None,
        },
{
    match crate::json::get_field(ms, key) {
        Some(fv) => match fv {
            FieldVal::Raw(t) => Some(copy_chars(t)),
            _ => None,
        },
        None => None,
    }
}

/// Appends the shown form of one value.
fn append_value_text(out: &mut Vec<char>, v: &FieldVal)
    ensures
        final(out)@ == old(out)@ + value_text(v@),
{
    match v {
        FieldVal::Null => push_str_chars(out, "null"),
        FieldVal::Bool(b) => append_bool(out, *b),
        FieldVal::Num(t) => push_chars(out, t),
        FieldVal::Str(t) => {
            let s = chars_to_string(t);
            append_string(out, s.as_str());
        },
        FieldVal::Raw(t) => push_chars(out, t),
    }
}

// ---------------------------------------------------------------------------
// Rendering: every list-style result is one tab-separated line per record.
// ---------------------------------------------------------------------------

/// Which record shape a list response holds.
#[derive(Debug, Clone, Copy, PartialEq, Eq, Structural)]
pub enum RowKind {
    App,
    Config,
    Secret,
    Rotation,
}

/// The printed line for one record, or nothing when a needed field is missing
/// or of the wrong kind.
pub open spec fn row_of(kind: RowKind, ms: Seq<MemberV>) -> Option<Seq<char>> {
    match kind {
        RowKind::App => match (str_field(ms, "id"@), str_field(ms, "name"@), opt_str_field(
            ms,
            "description"@,
        )) {
            (Some(i), Some(n), Some(d)) => Some(i + seq!['\t'] + n + seq!['\t'] + d),
            _ => None,
        },
        RowKind::Config => match (str_field(ms, "id"@), str_field(ms, "key"@), str_field(
            ms,
            "value"@,
        )) {
            (Some(i), Some(k), Some(v)) => Some(i + seq!['\t'] + k + seq!['\t'] + v),
            _ => None,
        },
        RowKind::Secret => match (str_field(ms, "id"@), str_field(ms, "key"@), opt_str_field(
            ms,
            "description"@,
        )) {
            (Some(i), Some(k), Some(d)) => Some(i + seq!['\t'] + k + seq!['\t'] + d),
            _ => None,
        },
        RowKind::Rotation => match (str_field(ms, "id"@), str_field(ms, "secretKey"@), str_field(
            ms,
            "status"@,
        ), str_field(ms, "rotationDate"@)) {
            (Some(i), Some(k), Some(st), Some(d)) => Some(
                i + seq!['\t'] + k + seq!['\t'] + st + seq!['\t'] + d,
            ),
            _ => None,
        },
    }
}

/// The printed lines for a list of records, or nothing when any record fails.
pub open spec fn rows_of(kind: RowKind, os: Seq<Seq<MemberV>>) -> Option<Seq<Seq<char>>>
    decreases os.len(),
{
    if os.len() == 0 {
        Some(Seq::empty())
    } else {
        match row_of(kind, os[0]) {
            Some(line) => match rows_of(kind, os.drop_first()) {
                Some(ls) => Some(seq![line] + ls),
                None => None,
            },
            None => None,
        }
    }
}

fn row_line(kind: RowKind, ms: &Vec<JsonMember>) -> (r: Option<String>)
    ensures
        match r {
            Some(line) => row_of(kind, members_view(ms@)) == Some(line@),
            None => row_of(kind, members_view(ms@)) is None,
        },
{
    let mut out: Vec<char> = Vec::new();
    match kind {
        RowKind::App => {
            let i = match field_str(ms, "id") {
                Some(v) => v,
                None => {
                    return None;
                },
            };
            let n = match field_str(ms, "name") {
                Some(v) => v,
                None => {
                    return None;
                },
            };
            let d = match field_opt_str(ms, "description") {
                Some(v) => v,
                None => {
                    return None;
                },
            };
            push_chars(&mut out, &i);
            out.push('\t');
            push_chars(&mut out, &n);
            out.push('\t');
            push_chars(&mut out, &d);
            proof {
                assert(out@ =~= i@ + seq!['\t'] + n@ + seq!['\t'] + d@);
            }
            Some(chars_to_string(&out))
        },
        RowKind::Config => {
            let i = match field_str(ms, "id") {
                Some(v) => v,
                None => {
                    return None;
                },
            };
            let k = match field_str(ms, "key") {
                Some(v) => v,
                None => {
                    return None;
                },
            };
            let v = match field_str(ms, "value") {
                Some(v) => v,
                None => {
                    return None;
                },
            };
            push_chars(&mut out, &i);
            out.push('\t');
            push_chars(&mut out, &k);
            out.push('\t');
            push_chars(&mut out, &v);
            proof {
                assert(out@ =~= i@ + seq!['\t'] + k@ + seq!['\t'] + v@);
            }
            Some(chars_to_string(&out))
        },
        RowKind::Secret => {
            let i = match field_str(ms, "id") {
                Some(v) => v,
                None => {
                    return None;
                },
            };
            let k = match field_str(ms, "key") {
                Some(v) => v,
                None => {
                    return None;
                },
            };
            let d = match field_opt_str(ms, "description") {
                Some(v) => v,
                None => {
                    return None;
                },
            };
            push_chars(&mut out, &i);
            out.push('\t');
            push_chars(&mut out, &k);
            out.push('\t');
            push_chars(&mut out, &d);
            proof {
                assert(out@ =~= i@ + seq!['\t'] + k@ + seq!['\t'] + d@);
            }
            Some(chars_to_string(&out))
        },
        RowKind::Rotation => {
            let i = match field_str(ms, "id") {
                Some(v) => v,
                None => {
                    return None;
                },
            };
            let k = match field_str(ms, "secretKey") {
                Some(v) => v,
                None => {
                    return None;
                },
            };
            let st = match field_str(ms, "status") {
                Some(v) => v,
                None => {
                    return None;
                },
            };
            let d = match field_str(ms, "rotationDate") {
                Some(v) => v,
                None => {
                    return None;
                },
            };
            push_chars(&mut out, &i);
            out.push('\t');
            push_chars(&mut out, &k);
            out.push('\t');
            push_chars(&mut out, &st);
            out.push('\t');
            push_chars(&mut out, &d);
            proof {
                assert(out@ =~= i@ + seq!['\t'] + k@ + seq!['\t'] + st@ + seq!['\t'] + d@);
            }
            Some(chars_to_string(&out))
        },
    }
}

fn rows_at(kind: RowKind, objs: &Vec<Vec<JsonMember>>, i: usize) -> (r: Option<Vec<String>>)
    requires
        i <= objs@.len(),
    ensures
        match r {
            Some(ls) => rows_of(kind, objects_view(objs@).skip(i as int)) == Some(lines_view(ls@)),
            None => rows_of(kind, objects_view(objs@).skip(i as int)) is None,
        },
    decreases objs@.len() - i,
{
    let ghost os = objects_view(objs@).skip(i as int);
    if i == objs.len() {
        let ls: Vec<String> = Vec::new();
        proof {
            assert(os.len() == 0);
            assert(lines_view(ls@) =~= Seq::<Seq<char>>::empty());
        }
        return Some(ls);
    }
    proof {
        assert(os[0] == members_view(objs@[i as int]@));
        assert(os.drop_first() =~= objects_view(objs@).skip(i + 1 as int));
    }
    let line = match row_line(kind, &objs[i]) {
        Some(l) => l,
        None => {
            return None;
        },
    };
    match rows_at(kind, objs, i + 1) {
        Some(ls) => {
            let mut ls2 = ls;
            let ghost lv = ls2@;
            ls2.insert(0, line);
            proof {
                assert(lines_view(ls2@) =~= seq![ls2@[0]@] + lines_view(lv));
            }
            Some(ls2)
        },
        None => None,
    }
}

/// A fixed confirmation line, owed whenever the body is one well-formed
/// value of any shape.
pub open spec fn checked_message(body: Seq<char>, msg: Seq<char>) -> Option<Seq<Seq<char>>> {
    match body_value(body) {
        Some(_) => Some(seq![msg]),
        None => None,
    }
}

/// The three lines of a validation summary: the two list sizes and the shown
/// details.
pub open spec fn validate_lines(body: Seq<char>) -> Option<Seq<Seq<char>>> {
    match body_object(body) {
        Some(ms) => match (raw_field(ms, "needsRotation"@), raw_field(ms, "expiringSoon"@),
        find_field(ms, "details"@)) {
            (Some(nr), Some(es), Some(d)) => match (array_values(nr), array_values(es)) {
                (Some(a1), Some(a2)) => Some(
                    seq![
                        "needsRotation: "@ + dec_rep(a1.len()),
                        "expiringSoon: "@ + dec_rep(a2.len()),
                        "details: "@ + value_text(d),
                    ],
                ),
                _ => None,
            },
            _ => None,
        },
        None => None,
    }
}

/// The one statistics line, each counter as the server wrote it.
pub open spec fn stats_line(body: Seq<char>) -> Option<Seq<Seq<char>>> {
    match body_object(body) {
        Some(ms) => match (num_field(ms, "totalRotations"@), num_field(
            ms,
            "successfulRotations"@,
        ), num_field(ms, "failedRotations"@), num_field(ms, "manualRotations"@), num_field(
            ms,
            "automaticRotations"@,
        ), num_field(ms, "successRate"@)) {
            (Some(t), Some(s), Some(f), Some(m), Some(a), Some(r)) => Some(
                seq![
                    "total="@ + t + " success="@ + s + " failed="@ + f + " manual="@ + m
                        + " auto="@ + a + " rate="@ + r,
                ],
            ),
            _ => None,
        },
        None => None,
    }
}

/// What a successful response prints for each subcommand, or nothing when the
/// body does not carry the shape the subcommand expects.
pub open spec fn render_ok(cmd: Commands, body: Seq<char>) -> Option<Seq<Seq<char>>> {
    match cmd {
        Commands::Login { .. } => Some(Seq::empty()),
        Commands::Config { command } => match command {
            ConfigCommands::List { .. } => match body_objects(body) {
                Some(os) => rows_of(RowKind::Config, os),
                None => None,
            },
            ConfigCommands::Get { .. } => match body_object(body) {
                Some(ms) => match str_field(ms, "value"@) {
                    Some(v) => Some(seq![v]),
                    None => None,
                },
                None => None,
            },
            ConfigCommands::SetValue { .. } => checked_message(body, "Configuration saved"@),
            ConfigCommands::Update { .. } => checked_message(body, "Configuration updated"@),
            ConfigCommands::Delete { .. } => Some(seq!["Configuration deleted"@]),
        },
        Commands::Apps { command } => match command {
            AppsCommands::List => match body_objects(body) {
                Some(os) => rows_of(RowKind::App, os),
                None => None,
            },
            AppsCommands::Create { .. } => checked_message(body, "Application created"@),
            AppsCommands::Show { .. } => match body_object(body) {
                Some(ms) => match (str_field(ms, "id"@), str_field(ms, "name"@), str_field(
                    ms,
                    "ownerEmail"@,
                ), bool_field(ms, "isActive"@)) {
                    (Some(i), Some(n), Some(o), Some(a)) => Some(
                        seq![i + seq!['\t'] + n + seq!['\t'] + o + seq!['\t'] + bool_text(a)],
                    ),
                    _ => None,
                },
                None => None,
            },
            AppsCommands::Update { .. } => checked_message(body, "Application updated"@),
        },
        Commands::Secrets { command } => match command {
            SecretsCommands::List { .. } => match body_objects(body) {
                Some(os) => rows_of(RowKind::Secret, os),
                None => None,
            },
            SecretsCommands::Get { .. } => match body_object(body) {
                Some(ms) => match str_field(ms, "decryptedValue"@) {
                    Some(v) => Some(seq![v]),
                    None => None,
                },
                None => None,
            },
            SecretsCommands::Create { .. } => checked_message(body, "Secret created"@),
            SecretsCommands::Rotate { .. } => checked_message(body, "Secret rotated"@),
            SecretsCommands::Deactivate { .. } => checked_message(body, "Secret deactivated"@),
            SecretsCommands::Delete { .. } => Some(seq!["Secret deleted"@]),
            SecretsCommands::Rotations { .. } => match body_objects(body) {
                Some(os) => rows_of(RowKind::Rotation, os),
                None => None,
            },
            SecretsCommands::AppRotations { .. } => match body_objects(body) {
                Some(os) => rows_of(RowKind::Rotation, os),
                None => None,
            },
            SecretsCommands::Validate { .. } => validate_lines(body),
            SecretsCommands::Stats { .. } => stats_line(body),
            SecretsCommands::Recent { .. } => match body_objects(body) {
                Some(os) => rows_of(RowKind::Rotation, os),
                None => None,
            },
            SecretsCommands::RotateDue { .. } => match body_value(body) {
                Some(v) => Some(seq![value_text(v)]),
                None => None,
            },
        },
    }
}

/// One line, given as its characters.
fn one_line(v: Vec<char>) -> (r: Vec<String>)
    ensures
        lines_view(r@) == seq![v@],
{
    let line = chars_to_string(&v);
    let mut r: Vec<String> = Vec::new();
    r.push(line);
    proof {
        assert(lines_view(r@) =~= seq![v@]);
    }
    r
}

/// One fixed line.
fn one_message(msg: &str) -> (r: Vec<String>)
    ensures
        lines_view(r@) == seq![msg@],
{
    let mut out: Vec<char> = Vec::new();
    push_str_chars(&mut out, msg);
    one_line(out)
}

fn checked_message_exec(body: &str, msg: &str) -> (r: Option<Vec<String>>)
    ensures
        match r {
            Some(ls) => checked_message(body@, msg@) == Some(lines_view(ls@)),
            None => checked_message(body@, msg@) is None,
        },
{
    match parse_body_value(body) {
        Some(_) => Some(one_message(msg)),
        None => None,
    }
}

fn render_rows(kind: RowKind, body: &str) -> (r: Option<Vec<String>>)
    ensures
        match r {
            Some(ls) => (match body_objects(body@) {
                Some(os) => rows_of(kind, os),
                None => None,
            }) == Some(lines_view(ls@)),
            None => (match body_objects(body@) {
                Some(os) => rows_of(kind, os),
                None => None,
            }) is None,
        },
{
    match parse_body_objects(body) {
        Some(os) => {
            proof {
                assert(objects_view(os@).skip(0) =~= objects_view(os@));
            }
            rows_at(kind, &os, 0)
        },
        None => None,
    }
}

/// What a successful response prints, or nothing when the body does not
/// carry the expected shape.
#[verifier::rlimit(100)]
fn render_ok_exec(cmd: &Commands, body: &str) -> (r: Option<Vec<String>>)
    ensures
        match r {
            Some(ls) => render_ok(*cmd, body@) == Some(lines_view(ls@)),
            None => render_ok(*cmd, body@) is None,
        },
{
    match cmd {
        Commands::Login { .. } => {
            let ls: Vec<String> = Vec::new();
            proof {
                assert(lines_view(ls@) =~= Seq::<Seq<char>>::empty());
            }
            Some(ls)
        },
        Commands::Config { command } => match command {
            ConfigCommands::List { .. } => render_rows(RowKind::Config, body),
            ConfigCommands::Get { .. } => match parse_body_object(body) {
                Some(ms) => match field_str(&ms, "value") {
                    Some(v) => Some(one_line(v)),
                    None => None,
                },
                None => None,
            },
            ConfigCommands::SetValue { .. } => checked_message_exec(body, "Configuration saved"),
            ConfigCommands::Update { .. } => checked_message_exec(body, "Configuration updated"),
            ConfigCommands::Delete { .. } => Some(one_message("Configuration deleted")),
        },
        Commands::Apps { command } => match command {
            AppsCommands::List => render_rows(RowKind::App, body),
            AppsCommands::Create { .. } => checked_message_exec(body, "Application created"),
            AppsCommands::Show { .. } => match parse_body_object(body) {
                Some(ms) => {
                    let i = match field_str(&ms, "id") {
                        Some(v) => v,
                        None => {
                            return None;
                        },
                    };
                    let n = match field_str(&ms, "name") {
                        Some(v) => v,
                        None => {
                            return None;
                        },
                    };
                    let o = match field_str(&ms, "ownerEmail") {
                        Some(v) => v,
                        None => {
                            return None;
                        },
                    };
                    let a = match field_bool(&ms, "isActive") {
                        Some(v) => v,
                        None => {
                            return None;
                        },
                    };
                    let mut out: Vec<char> = Vec::new();
                    push_chars(&mut out, &i);
                    out.push('\t');
                    push_chars(&mut out, &n);
                    out.push('\t');
                    push_chars(&mut out, &o);
                    out.push('\t');
                    append_bool(&mut out, a);
                    proof {
                        assert(out@ =~= i@ + seq!['\t'] + n@ + seq!['\t'] + o@ + seq!['\t']
                            + bool_text(a));
                    }
                    Some(one_line(out))
                },
                None => None,
            },
            AppsCommands::Update { .. } => checked_message_exec(body, "Application updated"),
        },
        Commands::Secrets { command } => match command {
            SecretsCommands::List { .. } => render_rows(RowKind::Secret, body),
            SecretsCommands::Get { .. } => match parse_body_object(body) {
                Some(ms) => match field_str(&ms, "decryptedValue") {
                    Some(v) => Some(one_line(v)),
                    None => None,
                },
                None => None,
            },
            SecretsCommands::Create { .. } => checked_message_exec(body, "Secret created"),
            SecretsCommands::Rotate { .. } => checked_message_exec(body, "Secret rotated"),
            SecretsCommands::Deactivate { .. } => checked_message_exec(body, "Secret deactivated"),
            SecretsCommands::Delete { .. } => Some(one_message("Secret deleted")),
            SecretsCommands::Rotations { .. } => render_rows(RowKind::Rotation, body),
            SecretsCommands::AppRotations { .. } => render_rows(RowKind::Rotation, body),
            SecretsCommands::Validate { .. } => match parse_body_object(body) {
                Some(ms) => {
                    let nr = match field_raw(&ms, "needsRotation") {
                        Some(v) => v,
                        None => {
                            return None;
                        },
                    };
                    let es = match field_raw(&ms, "expiringSoon") {
                        Some(v) => v,
                        None => {
                            return None;
                        },
                    };
                    let d = match crate::json::get_field(&ms, "details") {
                        Some(v) => v,
                        None => {
                            return None;
                        },
                    };
                    let a1 = match parse_array_values(&nr) {
                        Some(v) => v,
                        None => {
                            return None;
                        },
                    };
                    let a2 = match parse_array_values(&es) {
                        Some(v) => v,
                        None => {
                            return None;
                        },
                    };
                    let mut l1: Vec<char> = Vec::new();
                    push_str_chars(&mut l1, "needsRotation: ");
                    let d1 = u64_to_chars(a1.len() as u64);
                    push_chars(&mut l1, &d1);
                    proof {
                        assert(crate::json::values_view(a1@).len() == a1@.len());
                        assert(l1@ =~= "needsRotation: "@ + dec_rep(
                            crate::json::values_view(a1@).len(),
                        ));
                    }
                    let mut l2: Vec<char> = Vec::new();
                    push_str_chars(&mut l2, "expiringSoon: ");
                    let d2 = u64_to_chars(a2.len() as u64);
                    push_chars(&mut l2, &d2);
                    proof {
                        assert(crate::json::values_view(a2@).len() == a2@.len());
                        assert(l2@ =~= "expiringSoon: "@ + dec_rep(
                            crate::json::values_view(a2@).len(),
                        ));
                    }
                    let mut l3: Vec<char> = Vec::new();
                    push_str_chars(&mut l3, "details: ");
                    append_value_text(&mut l3, d);
                    let mut ls: Vec<String> = Vec::new();
                    ls.push(chars_to_string(&l1));
                    ls.push(chars_to_string(&l2));
                    ls.push(chars_to_string(&l3));
                    proof {
                        assert(lines_view(ls@) =~= seq![l1@, l2@, l3@]);
                    }
                    Some(ls)
                },
                None => None,
            },
            SecretsCommands::Stats { .. } => match parse_body_object(body) {
                Some(ms) => {
                    let t = match field_num(&ms, "totalRotations") {
                        Some(v) => v,
                        None => {
                            return None;
                        },
                    };
                    let s = match field_num(&ms, "successfulRotations") {
                        Some(v) => v,
                        None => {
                            return None;
                        },
                    };
                    let f = match field_num(&ms, "failedRotations") {
                        Some(v) => v,
                        None => {
                            return None;
                        },
                    };
                    let m = match field_num(&ms, "manualRotations") {
                        Some(v) => v,
                        None => {
                            return None;
                        },
                    };
                    let a = match field_num(&ms, "automaticRotations") {
                        Some(v) => v,
                        None => {
                            return None;
                        },
                    };
                    let rr = match field_num(&ms, "successRate") {
                        Some(v) => v,
                        None => {
                            return None;
                        },
                    };
                    let mut out: Vec<char> = Vec::new();
                    push_str_chars(&mut out, "total=");
                    push_chars(&mut out, &t);
                    push_str_chars(&mut out, " success=");
                    push_chars(&mut out, &s);
                    push_str_chars(&mut out, " failed=");
                    push_chars(&mut out, &f);
                    push_str_chars(&mut out, " manual=");
                    push_chars(&mut out, &m);
                    push_str_chars(&mut out, " auto=");
                    push_chars(&mut out, &a);
                    push_str_chars(&mut out, " rate=");
                    push_chars(&mut out, &rr);
                    proof {
                        assert(out@ =~= "total="@ + t@ + " success="@ + s@ + " failed="@ + f@
                            + " manual="@ + m@ + " auto="@ + a@ + " rate="@ + rr@);
                    }
                    Some(one_line(out))
                },
                None => None,
            },
            SecretsCommands::Recent { .. } => render_rows(RowKind::Rotation, body),
            SecretsCommands::RotateDue { .. } => match parse_body_value(body) {
                Some(v) => {
                    let mut out: Vec<char> = Vec::new();
                    append_value_text(&mut out, &v);
                    proof {
                        assert(out@ =~= value_text(v@));
                    }
                    Some(one_line(out))
                },
                None => None,
            },
        },
    }
}

fn decode_error() -> (r: CliError)
    ensures
        r is Decode,
{
    let mut out: Vec<char> = Vec::new();
    push_str_chars(&mut out, "the response body did not match the expected shape");
    CliError::Decode(chars_to_string(&out))
}

/// The whole response path of one command: a non-success status fails with
/// exactly that status and body and nothing is decoded; a success status
/// prints exactly the rendered lines, or fails as a decode error when the
/// body does not carry the expected shape.
pub fn render_response(cmd: &Commands, status: u16, body: String) -> (r: Result<
    Vec<String>,
    CliError,
>)
    ensures
        match r {
            Ok(lines) => 200 <= status < 300 && render_ok(*cmd, body@) == Some(lines_view(lines@)),
            Err(e) => match e {
                CliError::Request { status: st, body: b } => st == status && b == body && !(200
                    <= status < 300),
                CliError::Decode(_) => 200 <= status < 300 && render_ok(*cmd, body@) is None,
                _ => false,
            },
        },
{
    match crate::client::check_status(status, body) {
        Ok(b) => match render_ok_exec(cmd, b.as_str()) {
            Some(ls) => Ok(ls),
            None => Err(decode_error()),
        },
        Err(e) => Err(e),
    }
}

/// Saves credentials under the profile name: the URL is stored with trailing
/// slashes stripped, an existing profile of the same name is replaced in
/// place (a new name is appended), and the confirmation line is returned.
/// No request is planned or sent on this path.
pub fn apply_login(config: &mut CliConfig, profile_name: &str, url: String, api_key: String) -> (msg:
    String)
    ensures
        final(config)@ == upsert(
            old(config)@,
            ProfileV {
                name: profile_name@,
                base_url: trim_trailing_slashes(url@),
                api_key: api_key@,
            },
        ),
        msg@ == "Saved profile '"@ + profile_name@ + "'"@,
{
    let c = ApiClient::new(url, api_key);
    let mut name: Vec<char> = Vec::new();
    push_str_chars(&mut name, profile_name);
    let p = Profile { name: chars_to_string(&name), base_url: c.base_url, api_key: c.api_key };
    config.upsert_profile(p);
    let mut out: Vec<char> = Vec::new();
    push_str_chars(&mut out, "Saved profile '");
    push_str_chars(&mut out, profile_name);
    push_str_chars(&mut out, "'");
    chars_to_string(&out)
}

} // verus!
