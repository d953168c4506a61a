//! Cursor Agent model provider through a Node helper (`@cursor/sdk`).
//!
//! The helper reads one JSON request on stdin and answers one JSON object on
//! stdout. Auth is the `CURSOR_API_KEY` environment variable only. Running
//! the helper is the caller's process handling; the request it is given and
//! the reading of its answer are here.

use vstd::prelude::*;

use super::{
    cursor_cards, cursor_model_cards, infos_match, opt_string_view, runtime_name,
    CompleteRequest, CompleteResponse, ModelInfo, UsageMeta,
};
use crate::error::ModelProviderError;
use crate::json::{
    copy_json, json_str, make_object, member, members_view, opt_text_ok, opt_text_ok_exec,
    opt_u32_exec, opt_u32_ok, opt_u32_value, push_member, text_of, Json, JsonView,
};
use crate::text::trim_seq;

verus! {

pub const CURSOR_API_KEY_ENV: &'static str = "CURSOR_API_KEY";

pub const CURSOR_HELPER_ENV: &'static str = "CURSOR_AGENT_HELPER";

pub const DEFAULT_HELPER_REL: &'static str = "scripts/cursor_agent_complete.mjs";

/// Provider name reported on completions.
pub const CURSOR_PROVIDER_NAME: &'static str = "cursor-agent";

pub const CURSOR_SDK_NOTE: &'static str = "Agent.create({ apiKey, model:{id}, local:{cwd} }) + send";

/// Cursor Agent SDK provider (Node helper → `@cursor/sdk`).
#[derive(Debug)]
pub struct CursorAgentSdkSource {
    pub helper_path: String,
    pub api_key: Option<String>,
    pub node_bin: String,
}

/// The API key, when it is set and not empty.
pub open spec fn usable_key(k: Option<String>) -> Option<Seq<char>> {
    match k {
        Some(s) => if s@.len() > 0 { Some(s@) } else { None },
        None => None,
    }
}

/// The helper request: API key, chosen model, prompt, working directory
/// (when given) and runtime.
pub open spec fn helper_request_json(key: Seq<char>, req: CompleteRequest) -> JsonView {
    let head = seq![
        ("api_key"@, JsonView::Str(key)),
        ("chosen_model"@, JsonView::Str(req.model_id@)),
        ("prompt"@, JsonView::Str(req.prompt@)),
    ];
    let cwd = match req.cwd {
        Some(c) => seq![("cwd"@, JsonView::Str(c@))],
        None => Seq::empty(),
    };
    JsonView::Object(head + cwd + seq![("runtime"@, JsonView::Str(runtime_name(req.runtime)))])
}

/// The helper answer is an object with a string `model_output` and
/// optional `run_id`, token counts and `error`.
pub open spec fn helper_reply_ok(v: JsonView) -> bool {
    &&& v is Object
    &&& text_of(member(v, "model_output"@)) is Some
    &&& opt_text_ok(member(v, "run_id"@))
    &&& opt_u32_ok(member(v, "input_tokens"@))
    &&& opt_u32_ok(member(v, "output_tokens"@))
    &&& opt_text_ok(member(v, "error"@))
}

/// The metadata when the helper sends none.
pub open spec fn helper_meta(helper_path: Seq<char>, runtime: Seq<char>) -> JsonView {
    JsonView::Object(
        seq![
            ("helper"@, JsonView::Str(helper_path)),
            ("runtime"@, JsonView::Str(runtime)),
            ("sdk"@, JsonView::Str(CURSOR_SDK_NOTE@)),
        ],
    )
}

/// The helper's `raw_meta` when present and not `null`, else the default.
pub open spec fn helper_raw_meta(v: JsonView, helper_path: Seq<char>, runtime: Seq<char>) -> JsonView {
    match member(v, "raw_meta"@) {
        Some(JsonView::Null) => helper_meta(helper_path, runtime),
        Some(m) => m,
        None => helper_meta(helper_path, runtime),
    }
}

/// What the provider makes of a finished helper run for `req`.
pub open spec fn helper_outcome(
    p: CursorAgentSdkSource,
    req: CompleteRequest,
    exit_ok: bool,
    exit_status: Seq<char>,
    stderr: Seq<char>,
    stdout: Seq<char>,
    parsed: Result<JsonView, Seq<char>>,
    r: Result<CompleteResponse, ModelProviderError>,
) -> bool {
    if !exit_ok {
        r matches Err(ModelProviderError::CursorHelper(m)) && m@ == "exit "@ + exit_status + ": "@ + stderr
    } else {
        match parsed {
            Err(e) => r matches Err(ModelProviderError::CursorHelper(m)) && m@ == "invalid helper JSON ("@ + e + "): "@ + stdout,
            Ok(v) => if !helper_reply_ok(v) {
                r matches Err(ModelProviderError::CursorHelper(m)) && m@ == "invalid helper JSON (unexpected helper reply shape): "@ + stdout
            } else if text_of(member(v, "error"@)) is Some {
                r matches Err(ModelProviderError::CursorHelper(m)) && m@ == text_of(member(v, "error"@)).unwrap()
            } else {
                r matches Ok(resp) && {
                    &&& resp.model_output@ == text_of(member(v, "model_output"@)).unwrap()
                    &&& resp.source@ == CURSOR_PROVIDER_NAME@
                    &&& resp.model_id@ == req.model_id@
                    &&& opt_string_view(resp.run_id) == text_of(member(v, "run_id"@))
                    &&& resp.usage == Some(UsageMeta {
                        input_tokens: opt_u32_value(member(v, "input_tokens"@)),
                        output_tokens: opt_u32_value(member(v, "output_tokens"@)),
                    })
                    &&& resp.raw_meta is Some
                    &&& resp.raw_meta.unwrap()@ == helper_raw_meta(v, p.helper_path@, runtime_name(req.runtime))
                }
            },
        }
    }
}

impl CursorAgentSdkSource {
    pub fn new(helper_path: &str, api_key: Option<String>) -> (r: Self)
        ensures
            r.helper_path@ == helper_path@,
            r.api_key == api_key,
            r.node_bin@ == "node"@,
    {
        CursorAgentSdkSource { helper_path: helper_path.to_owned(), api_key, node_bin: "node".to_owned() }
    }

    /// The provider configured from the environment's values: the helper
    /// path (default `scripts/cursor_agent_complete.mjs`), the API key (a
    /// blank one counts as none) and the Node binary (default `node`).
    pub fn from_env_values(helper_path: Option<String>, api_key: Option<String>, node_bin: Option<String>) -> (r: Self)
        ensures
            r.helper_path@ == (match helper_path {
                Some(h) => h@,
                None => DEFAULT_HELPER_REL@,
            }),
            r.api_key == (match api_key {
                Some(k) => if trim_seq(k@).len() == 0 { None } else { Some(k) },
                None => None,
            }),
            r.node_bin@ == (match node_bin {
                Some(b) => b@,
                None => "node"@,
            }),
    {
        let helper_path = match helper_path {
            Some(h) => h,
            None => DEFAULT_HELPER_REL.to_owned(),
        };
        let api_key = match api_key {
            Some(k) => if crate::text::is_blank(k.as_str()) {
                None
            } else {
                Some(k)
            },
            None => None,
        };
        let node_bin = match node_bin {
            Some(b) => b,
            None => "node".to_owned(),
        };
        CursorAgentSdkSource { helper_path, api_key, node_bin }
    }

    pub fn name(&self) -> (s: &'static str)
        ensures
            s@ == CURSOR_PROVIDER_NAME@,
    {
        CURSOR_PROVIDER_NAME
    }

    /// The Cursor price snapshot.
    pub fn list_models(&self) -> (v: Vec<ModelInfo>)
        ensures
            infos_match(v@, cursor_cards()),
    {
        cursor_model_cards()
    }

    /// The API key to hand the helper: set and not empty.
    pub fn usable_api_key(&self) -> (r: Result<&str, ModelProviderError>)
        ensures
            match usable_key(self.api_key) {
                Some(k) => r matches Ok(s) && s@ == k,
                None => r matches Err(ModelProviderError::MissingCursorApiKey),
            },
    {
        match &self.api_key {
            Some(k) => if k.as_str().unicode_len() > 0 {
                Ok(k.as_str())
            } else {
                Err(ModelProviderError::MissingCursorApiKey)
            },
            None => Err(ModelProviderError::MissingCursorApiKey),
        }
    }

    /// The error for a helper script that is not there.
    pub fn helper_missing(&self) -> (e: ModelProviderError)
        ensures
            e matches ModelProviderError::CursorHelper(m) && m@ == "helper not found at "@ + self.helper_path@
                + " — set CURSOR_AGENT_HELPER or run from the repository root"@,
    {
        let mut m = "helper not found at ".to_owned();
        m.append(self.helper_path.as_str());
        m.append(" — set CURSOR_AGENT_HELPER or run from the repository root");
        ModelProviderError::CursorHelper(m)
    }

    /// The JSON request the helper reads on stdin.
    pub fn helper_request(&self, api_key: &str, req: &CompleteRequest) -> (j: Json)
        ensures
            j@ == helper_request_json(api_key@, *req),
    {
        let mut members: Vec<(String, Json)> = Vec::new();
        assert(members_view(members@) =~= Seq::empty());
        push_member(&mut members, "api_key", json_str(api_key));
        push_member(&mut members, "chosen_model", json_str(req.model_id.as_str()));
        push_member(&mut members, "prompt", json_str(req.prompt.as_str()));
        if let Some(c) = &req.cwd {
            push_member(&mut members, "cwd", json_str(c.as_str()));
        }
        push_member(&mut members, "runtime", json_str(req.runtime.as_str()));
        proof {
            match helper_request_json(api_key@, *req) {
                JsonView::Object(expect) => assert(members_view(members@) =~= expect),
                _ => {},
            }
        }
        make_object(members)
    }

    /// Reads a finished helper run: a failed exit reports the exit status
    /// and stderr; otherwise stdout must be the helper's JSON answer, whose
    /// `error`, when set, is the failure.
    ///
    /// `parsed` is stdout parsed as JSON, or the parser's complaint.
    pub fn completion_from_helper(
        &self,
        req: &CompleteRequest,
        exit_ok: bool,
        exit_status: &str,
        stderr: &str,
        stdout: &str,
        parsed: Result<Json, String>,
    ) -> (r: Result<CompleteResponse, ModelProviderError>)
        ensures
            helper_outcome(*self, *req, exit_ok, exit_status@, stderr@, stdout@, match parsed {
                Ok(j) => Ok(j@),
                Err(e) => Err(e@),
            }, r),
    {
        if !exit_ok {
            let mut m = "exit ".to_owned();
            m.append(exit_status);
            m.append(": ");
            m.append(stderr);
            return Err(ModelProviderError::CursorHelper(m));
        }
        let v = match parsed {
            Ok(j) => j,
            Err(e) => {
                let mut m = "invalid helper JSON (".to_owned();
                m.append(e.as_str());
                m.append("): ");
                m.append(stdout);
                return Err(ModelProviderError::CursorHelper(m));
            },
        };
        let is_object = match &v {
            Json::Object(_) => true,
            _ => false,
        };
        let output = crate::json::member_text(&v, "model_output");
        let (input_ok, input_tokens) = opt_u32_exec(v.get("input_tokens"));
        let (output_ok, output_tokens) = opt_u32_exec(v.get("output_tokens"));
        if !(is_object && output.is_some() && opt_text_ok_exec(v.get("run_id")) && input_ok && output_ok
            && opt_text_ok_exec(v.get("error"))) {
            let mut m = "invalid helper JSON (unexpected helper reply shape): ".to_owned();
            m.append(stdout);
            return Err(ModelProviderError::CursorHelper(m));
        }
        if let Some(err) = crate::json::member_text(&v, "error") {
            return Err(ModelProviderError::CursorHelper(err.to_owned()));
        }
        let model_output = match output {
            Some(t) => t.to_owned(),
            None => String::new(),
        };
        let run_id: Option<String> = match crate::json::member_text(&v, "run_id") {
            Some(t) => Some(t.to_owned()),
            None => None,
        };
        let runtime = req.runtime.as_str();
        let meta = match v.get("raw_meta") {
            Some(Json::Null) => self.default_meta(runtime),
            Some(m) => copy_json(m),
            None => self.default_meta(runtime),
        };
        Ok(CompleteResponse {
            model_output,
            source: CURSOR_PROVIDER_NAME.to_owned(),
            model_id: req.model_id.clone(),
            run_id,
            usage: Some(UsageMeta { input_tokens, output_tokens }),
            raw_meta: Some(meta),
        })
    }

    fn default_meta(&self, runtime: &str) -> (j: Json)
        ensures
            j@ == helper_meta(self.helper_path@, runtime@),
    {
        let mut members: Vec<(String, Json)> = Vec::new();
        assert(members_view(members@) =~= Seq::empty());
        push_member(&mut members, "helper", json_str(self.helper_path.as_str()));
        push_member(&mut members, "runtime", json_str(runtime));
        push_member(&mut members, "sdk", json_str(CURSOR_SDK_NOTE));
        proof {
            match helper_meta(self.helper_path@, runtime@) {
                JsonView::Object(expect) => assert(members_view(members@) =~= expect),
                _ => {},
            }
        }
        make_object(members)
    }
}

} // verus!
