//! Protocol records: JSON-RPC envelopes, advertised configuration options,
//! the menus derived from them and the outcome of a model switch.

use vstd::prelude::*;
use crate::journal::{opt_view, copy_opt};
use crate::json::{Json, JsonV, JsonNumber, JsonNumberV, member};
use crate::text::str_eq;

verus! {

pub const PROTOCOL_VERSION: u32 = 1;

/// A JSON-RPC request.
#[derive(Debug)]
pub struct JsonRpcRequest {
    pub jsonrpc: String,
    pub id: u64,
    pub method: String,
    pub params: Option<Json>,
}

/// A JSON-RPC error object.
#[derive(Debug)]
pub struct JsonRpcError {
    pub code: i64,
    pub message: String,
    pub data: Option<Json>,
}

/// A JSON-RPC response.
#[derive(Debug)]
pub struct JsonRpcResponse {
    pub jsonrpc: String,
    pub id: u64,
    pub result: Option<Json>,
    pub error: Option<JsonRpcError>,
}

/// A JSON-RPC notification.
#[derive(Debug)]
pub struct JsonRpcNotification {
    pub jsonrpc: String,
    pub method: String,
    pub params: Option<Json>,
}

/// Any message read from the agent.
#[derive(Debug)]
pub enum Incoming {
    Response(JsonRpcResponse),
    Notification(JsonRpcNotification),
    Request(JsonRpcRequest),
}

impl JsonRpcRequest {
    /// The wire object: `jsonrpc`, `id`, `method`, and `params` when present.
    pub fn to_json(&self) -> (r: Json)
        ensures
            r@ == JsonV::Object({
                let base = seq![
                    ("jsonrpc"@, JsonV::Str(self.jsonrpc@)),
                    ("id"@, JsonV::Number(JsonNumberV::PosInt(self.id))),
                    ("method"@, JsonV::Str(self.method@)),
                ];
                match self.params {
                    Some(p) => base.push(("params"@, p@)),
                    None => base,
                }
            }),
    {
        let mut es: Vec<(String, Json)> = Vec::new();
        es.push(member("jsonrpc", Json::text(self.jsonrpc.as_str())));
        es.push(member("id", Json::Number(JsonNumber::PosInt(self.id))));
        es.push(member("method", Json::text(self.method.as_str())));
        match &self.params {
            Some(p) => es.push(member("params", p.deep_clone())),
            None => {},
        }
        proof {
            crate::json::lemma_members_view(es@);
            let base = seq![
                ("jsonrpc"@, JsonV::Str(self.jsonrpc@)),
                ("id"@, JsonV::Number(JsonNumberV::PosInt(self.id))),
                ("method"@, JsonV::Str(self.method@)),
            ];
            if self.params is Some {
                assert(crate::json::members_view(es@) =~= base.push(("params"@, self.params->Some_0@)));
            } else {
                assert(crate::json::members_view(es@) =~= base);
            }
        }
        Json::Object(es)
    }
}

/// One value an agent advertises for a configuration option.
#[derive(Debug)]
pub struct ConfigOptionValue {
    pub value: String,
    pub name: String,
    pub description: Option<String>,
}

/// A configuration option advertised by the agent.
#[derive(Debug)]
pub struct ConfigOption {
    pub id: String,
    pub name: String,
    pub category: Option<String>,
    pub option_type: String,
    pub current_value: Option<Json>,
    pub options: Vec<ConfigOptionValue>,
}

pub struct ConfigOptionV {
    pub id: Seq<char>,
    pub name: Seq<char>,
    pub category: Option<Seq<char>>,
    pub option_type: Seq<char>,
    pub current_value: Option<JsonV>,
    pub options: Seq<(Seq<char>, Seq<char>, Option<Seq<char>>)>,
}

impl View for ConfigOption {
    type V = ConfigOptionV;

    open spec fn view(&self) -> ConfigOptionV {
        ConfigOptionV {
            id: self.id@,
            name: self.name@,
            category: opt_view(self.category),
            option_type: self.option_type@,
            current_value: match self.current_value {
                Some(v) => Some(v@),
                None => None,
            },
            options: self.options@.map_values(|o: ConfigOptionValue| (o.value@, o.name@, opt_view(o.description))),
        }
    }
}

impl ConfigOption {
    pub fn duplicate(&self) -> (r: ConfigOption)
        ensures
            r@ == self@,
    {
        let mut options: Vec<ConfigOptionValue> = Vec::new();
        let mut i: usize = 0;
        while i < self.options.len()
            invariant
                i <= self.options@.len(),
                options@.len() == i,
                forall|j: int| 0 <= j < i ==> (#[trigger] options@[j]).value@ == self.options@[j].value@
                    && options@[j].name@ == self.options@[j].name@
                    && opt_view(options@[j].description) == opt_view(self.options@[j].description),
            decreases self.options@.len() - i,
        {
            let o = &self.options[i];
            options.push(ConfigOptionValue { value: o.value.clone(), name: o.name.clone(), description: copy_opt(&o.description) });
            i += 1;
        }
        let r = ConfigOption {
            id: self.id.clone(),
            name: self.name.clone(),
            category: copy_opt(&self.category),
            option_type: self.option_type.clone(),
            current_value: match &self.current_value {
                Some(v) => Some(v.deep_clone()),
                None => None,
            },
            options,
        };
        proof {
            assert(r@.options =~= self@.options);
        }
        r
    }
}

/// The menus the UI may show: only what the agent advertised.
#[derive(Debug)]
pub struct AdvertisedMenus {
    pub model: Option<ConfigOption>,
    pub thought_level: Option<ConfigOption>,
    pub model_config: Vec<ConfigOption>,
}

/// The last option of the given category, if any.
pub open spec fn last_of_category(opts: Seq<ConfigOptionV>, cat: Seq<char>) -> Option<ConfigOptionV>
    decreases opts.len(),
{
    if opts.len() == 0 {
        None
    } else if opts.last().category == Some(cat) {
        Some(opts.last())
    } else {
        last_of_category(opts.drop_last(), cat)
    }
}

pub open spec fn opt_option_view(o: Option<ConfigOption>) -> Option<ConfigOptionV> {
    match o {
        Some(c) => Some(c@),
        None => None,
    }
}

impl AdvertisedMenus {
    pub open spec fn model_view(&self) -> Option<ConfigOptionV> {
        opt_option_view(self.model)
    }

    pub open spec fn thought_level_view(&self) -> Option<ConfigOptionV> {
        opt_option_view(self.thought_level)
    }

    pub open spec fn model_config_view(&self) -> Seq<ConfigOptionV> {
        self.model_config@.map_values(|c: ConfigOption| c@)
    }

    /// No menus at all.
    pub fn empty() -> (m: AdvertisedMenus)
        ensures
            m.model is None,
            m.thought_level is None,
            m.model_config@.len() == 0,
    {
        AdvertisedMenus { model: None, thought_level: None, model_config: Vec::new() }
    }

    /// Menus from the advertised options: the last `model` option, the last
    /// `thought_level` option, and every `model_config` option in order.
    /// Other categories are ignored so no menu is ever invented.
    pub fn from_options(opts: &[ConfigOption]) -> (m: AdvertisedMenus)
        ensures
            m.model_view() == last_of_category(opts@.map_values(|c: ConfigOption| c@), "model"@),
            m.thought_level_view() == last_of_category(opts@.map_values(|c: ConfigOption| c@), "thought_level"@),
            m.model_config_view() == opts@.map_values(|c: ConfigOption| c@).filter(|c: ConfigOptionV| c.category == Some("model_config"@)),
    {
        let ghost all = opts@.map_values(|c: ConfigOption| c@);
        let mut menus = AdvertisedMenus::empty();
        let mut i: usize = 0;
        while i < opts.len()
            invariant
                all == opts@.map_values(|c: ConfigOption| c@),
                i <= opts@.len(),
                menus.model_view() == last_of_category(all.take(i as int), "model"@),
                menus.thought_level_view() == last_of_category(all.take(i as int), "thought_level"@),
                menus.model_config_view() == all.take(i as int).filter(|c: ConfigOptionV| c.category == Some("model_config"@)),
            decreases opts@.len() - i,
        {
            proof {
                broadcast use vstd::string::group_string_axioms;
                reveal_strlit("model");
                reveal_strlit("thought_level");
                reveal_strlit("model_config");
                assert("model"@.len() == 5);
                assert("thought_level"@.len() == 13);
                assert("model_config"@.len() == 12);
                reveal(Seq::filter);
                assert(all.take(i + 1).drop_last() =~= all.take(i as int));
                assert(all.take(i + 1).last() == opts@[i as int]@);
            }
            let o = &opts[i];
            let cat: &str = match &o.category {
                Some(c) => c.as_str(),
                None => "",
            };
            let has = o.category.is_some();
            if has && str_eq(cat, "model") {
                menus.model = Some(o.duplicate());
            } else if has && str_eq(cat, "thought_level") {
                menus.thought_level = Some(o.duplicate());
            } else if has && str_eq(cat, "model_config") {
                let ghost before = menus.model_config_view();
                menus.model_config.push(o.duplicate());
                proof { assert(menus.model_config_view() =~= before.push(opts@[i as int]@)); }
            }
            i += 1;
        }
        proof { assert(all.take(i as int) =~= all); }
        menus
    }

    /// A model or thought-level menu was advertised.
    pub fn has_any_switch_ui(&self) -> (b: bool)
        ensures
            b == (self.model is Some || self.thought_level is Some),
    {
        self.model.is_some() || self.thought_level.is_some()
    }

    /// The agent advertised a configuration option with id `config_id`.
    pub open spec fn advertises(&self, config_id: Seq<char>) -> bool {
        ||| (self.model matches Some(m) && m.id@ == config_id)
        ||| (self.thought_level matches Some(t) && t.id@ == config_id)
        ||| exists|k: int| 0 <= k < self.model_config@.len() && #[trigger] self.model_config@[k].id@ == config_id
    }

    /// Whether the agent advertised option `config_id`.
    pub fn is_advertised(&self, config_id: &str) -> (b: bool)
        ensures
            b == self.advertises(config_id@),
            // Every option the menus hold is advertised, and nothing else is.
            (self.model matches Some(m) && m.id@ == config_id@) ==> b,
            (self.thought_level matches Some(t) && t.id@ == config_id@) ==> b,
            forall|k: int| 0 <= k < self.model_config@.len() && #[trigger] self.model_config@[k].id@ == config_id@ ==> b,
            b ==> (self.model matches Some(m) && m.id@ == config_id@)
                || (self.thought_level matches Some(t) && t.id@ == config_id@)
                || exists|k: int| 0 <= k < self.model_config@.len() && #[trigger] self.model_config@[k].id@ == config_id@,
    {
        proof { lemma_held_options_advertised(*self); }
        if let Some(m) = &self.model {
            if str_eq(m.id.as_str(), config_id) {
                return true;
            }
        }
        if let Some(t) = &self.thought_level {
            if str_eq(t.id.as_str(), config_id) {
                return true;
            }
        }
        let mut i: usize = 0;
        while i < self.model_config.len()
            invariant
                i <= self.model_config@.len(),
                forall|k: int| 0 <= k < i ==> #[trigger] self.model_config@[k].id@ != config_id@,
            decreases self.model_config@.len() - i,
        {
            if str_eq(self.model_config[i].id.as_str(), config_id) {
                return true;
            }
            i += 1;
        }
        false
    }
}

/// Every option the menus hold is advertised: the model option, the
/// thought-level option and each model-config option.
pub proof fn lemma_held_options_advertised(menus: AdvertisedMenus)
    ensures
        menus.model matches Some(m) ==> menus.advertises(m.id@),
        menus.thought_level matches Some(t) ==> menus.advertises(t.id@),
        forall|k: int| 0 <= k < menus.model_config@.len() ==> menus.advertises(#[trigger] menus.model_config@[k].id@),
{
}

/// The outcome of a model switch request.
#[derive(Debug)]
pub enum ModelSwitchOutcome {
    Applied,
    /// Hot switch failed or the option was not advertised: the UI must start
    /// a new session with a summary instead of pretending to switch.
    RequireNewSessionWithSummary { reason: String },
}

} // verus!
