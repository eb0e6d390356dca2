//! The records the settings store holds: accounts, providers, models, the
//! fields a form focuses, and the statuses background work reports.

use crate::path::Path;
use crate::text::same;
use vstd::prelude::*;
use vstd::string::*;

verus! {

/// The characters of an optional string.
pub open spec fn opt_text(o: Option<String>) -> Option<Seq<char>> {
    match o {
        Some(s) => Some(s@),
        None => None,
    }
}

/// A copy of an optional string.
pub fn copy_opt_text(o: &Option<String>) -> (r: Option<String>)
    ensures
        opt_text(r) == opt_text(*o),
{
    match o {
        Some(s) => Some(s.clone()),
        None => None,
    }
}

/// The fields of a connection, in no particular order.
#[derive(Clone, Copy, Debug, PartialEq, Eq, Structural)]
pub enum AccountField {
    Name,
    Protocol,
    Endpoint,
    Auth,
    Key,
}

/// The overridable fields of a model.
#[derive(Clone, Copy, Debug, PartialEq, Eq, Structural)]
pub enum ModelField {
    ContextSizeOverride,
    OutputTokensOverride,
}

/// The steps of entering a model by hand.
#[derive(Clone, Copy, Debug, PartialEq, Eq, Structural)]
pub enum ManualModelStage {
    Id,
    Ctx,
    Out,
}

/// How a provider is authenticated against.
#[derive(Clone, Copy, Debug, PartialEq, Eq, Structural)]
pub enum AuthScheme {
    XApiKey,
    BearerToken,
    NoAuth,
}

/// Where a model's figures come from.
#[derive(Clone, Copy, Debug, PartialEq, Eq, Structural)]
pub enum ModelInfoSource {
    Server,
    KnownTable,
    UserOverride,
    UserEntered,
}

impl AuthScheme {
    /// Whether the scheme sends a key.
    pub open spec fn needs_key(self) -> bool {
        self != AuthScheme::NoAuth
    }

    /// Whether the scheme sends a key.
    pub fn requires_key(&self) -> (r: bool)
        ensures
            r == self.needs_key(),
    {
        match self {
            AuthScheme::XApiKey => true,
            AuthScheme::BearerToken => true,
            AuthScheme::NoAuth => false,
        }
    }
}

/// The schemes in the order a selector shows them.
pub open spec fn auth_order() -> Seq<AuthScheme> {
    seq![AuthScheme::XApiKey, AuthScheme::BearerToken, AuthScheme::NoAuth]
}

/// The schemes in the order a selector shows them.
pub fn auth_schemes() -> (r: Vec<AuthScheme>)
    ensures
        r@ == auth_order(),
{
    let r: Vec<AuthScheme> = vec![AuthScheme::XApiKey, AuthScheme::BearerToken, AuthScheme::NoAuth];
    proof {
        assert(r@ =~= auth_order());
    }
    r
}

/// The scheme's name, on screen and in the store.
pub open spec fn auth_text(a: AuthScheme) -> Seq<char> {
    match a {
        AuthScheme::XApiKey => "x-api-key"@,
        AuthScheme::BearerToken => "bearer-token"@,
        AuthScheme::NoAuth => "none"@,
    }
}

/// The scheme's name, on screen and in the store.
pub fn auth_name(a: AuthScheme) -> (r: &'static str)
    ensures
        r@ == auth_text(a),
{
    match a {
        AuthScheme::XApiKey => "x-api-key",
        AuthScheme::BearerToken => "bearer-token",
        AuthScheme::NoAuth => "none",
    }
}

/// The scheme with that name.
pub open spec fn auth_of(s: Seq<char>) -> Option<AuthScheme> {
    if s == auth_text(AuthScheme::XApiKey) {
        Some(AuthScheme::XApiKey)
    } else if s == auth_text(AuthScheme::BearerToken) {
        Some(AuthScheme::BearerToken)
    } else if s == auth_text(AuthScheme::NoAuth) {
        Some(AuthScheme::NoAuth)
    } else {
        None
    }
}

/// The scheme with that name.
pub fn auth_named(s: &str) -> (r: Option<AuthScheme>)
    ensures
        r == auth_of(s@),
{
    if same(s, "x-api-key") {
        Some(AuthScheme::XApiKey)
    } else if same(s, "bearer-token") {
        Some(AuthScheme::BearerToken)
    } else if same(s, "none") {
        Some(AuthScheme::NoAuth)
    } else {
        None
    }
}

/// A scheme's name names that scheme.
pub proof fn auth_text_names_scheme(a: AuthScheme)
    ensures
        auth_of(auth_text(a)) == Some(a),
{
    reveal_strlit("x-api-key");
    reveal_strlit("bearer-token");
    reveal_strlit("none");
    assert("x-api-key"@.len() == 9);
    assert("bearer-token"@.len() == 12);
    assert("none"@.len() == 4);
}

/// The field's name in the store.
pub open spec fn field_text(f: AccountField) -> Seq<char> {
    match f {
        AccountField::Name => "name"@,
        AccountField::Protocol => "protocol"@,
        AccountField::Endpoint => "endpoint"@,
        AccountField::Auth => "auth"@,
        AccountField::Key => "key"@,
    }
}

/// The field with that name in the store.
pub open spec fn field_of(s: Seq<char>) -> Option<AccountField> {
    if s == "name"@ {
        Some(AccountField::Name)
    } else if s == "protocol"@ {
        Some(AccountField::Protocol)
    } else if s == "endpoint"@ {
        Some(AccountField::Endpoint)
    } else if s == "auth"@ {
        Some(AccountField::Auth)
    } else if s == "key"@ {
        Some(AccountField::Key)
    } else {
        None
    }
}

/// The field with that name in the store.
pub fn field_named(s: &str) -> (r: Option<AccountField>)
    ensures
        r == field_of(s@),
{
    if same(s, "name") {
        Some(AccountField::Name)
    } else if same(s, "protocol") {
        Some(AccountField::Protocol)
    } else if same(s, "endpoint") {
        Some(AccountField::Endpoint)
    } else if same(s, "auth") {
        Some(AccountField::Auth)
    } else if same(s, "key") {
        Some(AccountField::Key)
    } else {
        None
    }
}

/// A field's name names that field.
pub proof fn field_text_names_field(f: AccountField)
    ensures
        field_of(field_text(f)) == Some(f),
{
    reveal_strlit("name");
    reveal_strlit("protocol");
    reveal_strlit("endpoint");
    reveal_strlit("auth");
    reveal_strlit("key");
    assert("name"@[0] == 'n');
    assert("protocol"@[0] == 'p');
    assert("endpoint"@[0] == 'e');
    assert("auth"@[0] == 'a');
    assert("key"@[0] == 'k');
}

/// The stage's name in the store.
pub open spec fn stage_text(s: ManualModelStage) -> Seq<char> {
    match s {
        ManualModelStage::Id => "Id"@,
        ManualModelStage::Ctx => "Ctx"@,
        ManualModelStage::Out => "Out"@,
    }
}

/// The stage's name in the store.
pub fn stage_name(s: ManualModelStage) -> (r: &'static str)
    ensures
        r@ == stage_text(s),
{
    match s {
        ManualModelStage::Id => "Id",
        ManualModelStage::Ctx => "Ctx",
        ManualModelStage::Out => "Out",
    }
}

/// The stage with that name in the store.
pub open spec fn stage_of(s: Seq<char>) -> Option<ManualModelStage> {
    if s == "Id"@ {
        Some(ManualModelStage::Id)
    } else if s == "Ctx"@ {
        Some(ManualModelStage::Ctx)
    } else if s == "Out"@ {
        Some(ManualModelStage::Out)
    } else {
        None
    }
}

/// The stage with that name in the store.
pub fn stage_named(s: &str) -> (r: Option<ManualModelStage>)
    ensures
        r == stage_of(s@),
{
    if same(s, "Id") {
        Some(ManualModelStage::Id)
    } else if same(s, "Ctx") {
        Some(ManualModelStage::Ctx)
    } else if same(s, "Out") {
        Some(ManualModelStage::Out)
    } else {
        None
    }
}

/// A stage's name names that stage.
pub proof fn stage_text_names_stage(s: ManualModelStage)
    ensures
        stage_of(stage_text(s)) == Some(s),
{
    reveal_strlit("Id");
    reveal_strlit("Ctx");
    reveal_strlit("Out");
    assert("Id"@[0] == 'I');
    assert("Ctx"@[0] == 'C');
    assert("Out"@[0] == 'O');
}

/// A connection: which provider record it is bound to, and the name it was
/// given.
#[derive(Clone, Debug, PartialEq, Eq)]
pub struct AccountConfig {
    pub provider: String,
    pub display_name: Option<String>,
}

/// What an `AccountConfig` holds.
pub struct AccountView {
    pub provider: Seq<char>,
    pub display_name: Option<Seq<char>>,
}

impl View for AccountConfig {
    type V = AccountView;

    open spec fn view(&self) -> AccountView {
        AccountView { provider: self.provider@, display_name: opt_text(self.display_name) }
    }
}

impl AccountConfig {
    /// An account bound to `provider`, without a display name.
    pub fn bound_to(provider: String) -> (r: AccountConfig)
        ensures
            r@ == (AccountView { provider: provider@, display_name: None }),
    {
        AccountConfig { provider, display_name: None }
    }

    /// A copy of the record.
    pub fn copied(&self) -> (r: AccountConfig)
        ensures
            r@ == self@,
    {
        AccountConfig {
            provider: self.provider.clone(),
            display_name: copy_opt_text(&self.display_name),
        }
    }
}

/// An endpoint, the dialect it speaks, and how it is authenticated against.
#[derive(Clone, Debug, PartialEq, Eq)]
pub struct ProviderConfig {
    pub dialect: String,
    pub endpoint: String,
    pub version: String,
    pub auth: Option<AuthScheme>,
}

/// What a `ProviderConfig` holds.
pub struct ProviderView {
    pub dialect: Seq<char>,
    pub endpoint: Seq<char>,
    pub version: Seq<char>,
    pub auth: Option<AuthScheme>,
}

impl View for ProviderConfig {
    type V = ProviderView;

    open spec fn view(&self) -> ProviderView {
        ProviderView {
            dialect: self.dialect@,
            endpoint: self.endpoint@,
            version: self.version@,
            auth: self.auth,
        }
    }
}

impl ProviderView {
    /// The scheme in force: the one set, or else the dialect's own.
    pub open spec fn effective_auth(self) -> AuthScheme {
        match self.auth {
            Some(a) => a,
            None => if self.dialect == "anthropic"@ {
                AuthScheme::XApiKey
            } else {
                AuthScheme::BearerToken
            },
        }
    }
}

/// A provider of which nothing but the dialect is known.
pub open spec fn blank_provider(dialect: Seq<char>) -> ProviderView {
    ProviderView { dialect, endpoint: Seq::empty(), version: Seq::empty(), auth: None }
}

impl ProviderConfig {
    /// A provider of which nothing but the dialect is known.
    pub fn blank(dialect: &str) -> (r: ProviderConfig)
        ensures
            r@ == blank_provider(dialect@),
    {
        let r = ProviderConfig {
            dialect: dialect.to_owned(),
            endpoint: String::new(),
            version: String::new(),
            auth: None,
        };
        proof {
            assert(r.endpoint@ =~= Seq::<char>::empty());
            assert(r.version@ =~= Seq::<char>::empty());
        }
        r
    }

    /// A copy of the record.
    pub fn copied(&self) -> (r: ProviderConfig)
        ensures
            r@ == self@,
    {
        ProviderConfig {
            dialect: self.dialect.clone(),
            endpoint: self.endpoint.clone(),
            version: self.version.clone(),
            auth: self.auth,
        }
    }

    /// The scheme in force: the one set, or else the dialect's own.
    pub fn resolved_auth(&self) -> (r: AuthScheme)
        ensures
            r == self@.effective_auth(),
    {
        match self.auth {
            Some(a) => a,
            None => if same(self.dialect.as_str(), "anthropic") {
                AuthScheme::XApiKey
            } else {
                AuthScheme::BearerToken
            },
        }
    }
}

/// One model of a catalog.
#[derive(Clone, Debug, PartialEq, Eq)]
pub struct ModelInfo {
    pub id: String,
    pub display_name: String,
    pub max_context_size: Option<u32>,
    pub max_output_tokens: Option<u32>,
    pub source: ModelInfoSource,
}

/// What a `ModelInfo` holds.
pub struct ModelView {
    pub id: Seq<char>,
    pub display_name: Seq<char>,
    pub max_context_size: Option<u32>,
    pub max_output_tokens: Option<u32>,
    pub source: ModelInfoSource,
}

impl View for ModelInfo {
    type V = ModelView;

    open spec fn view(&self) -> ModelView {
        ModelView {
            id: self.id@,
            display_name: self.display_name@,
            max_context_size: self.max_context_size,
            max_output_tokens: self.max_output_tokens,
            source: self.source,
        }
    }
}

impl ModelInfo {
    /// A copy of the record.
    pub fn copied(&self) -> (r: ModelInfo)
        ensures
            r@ == self@,
    {
        ModelInfo {
            id: self.id.clone(),
            display_name: self.display_name.clone(),
            max_context_size: self.max_context_size,
            max_output_tokens: self.max_output_tokens,
            source: self.source,
        }
    }
}

/// What each model of a catalog holds.
pub open spec fn models_view(v: Seq<ModelInfo>) -> Seq<ModelView> {
    Seq::new(v.len(), |i: int| v[i]@)
}

/// A model within an account.
#[derive(Clone, Debug, PartialEq, Eq)]
pub struct ModelKey {
    pub account: String,
    pub model_id: String,
}

/// What a `ModelKey` holds.
pub struct ModelKeyView {
    pub account: Seq<char>,
    pub model_id: Seq<char>,
}

impl View for ModelKey {
    type V = ModelKeyView;

    open spec fn view(&self) -> ModelKeyView {
        ModelKeyView { account: self.account@, model_id: self.model_id@ }
    }
}

impl ModelKey {
    /// A copy of the key.
    pub fn copied(&self) -> (r: ModelKey)
        ensures
            r@ == self@,
    {
        ModelKey { account: self.account.clone(), model_id: self.model_id.clone() }
    }

    /// Whether both keys name the same model.
    pub fn same_as(&self, other: &ModelKey) -> (r: bool)
        ensures
            r == (self@ == other@),
    {
        same(self.account.as_str(), other.account.as_str()) && same(
            self.model_id.as_str(),
            other.model_id.as_str(),
        )
    }
}

/// What each key of a list holds.
pub open spec fn keys_view(v: Seq<ModelKey>) -> Seq<ModelKeyView> {
    Seq::new(v.len(), |i: int| v[i]@)
}

/// An optional key's view.
pub open spec fn opt_key(o: Option<ModelKey>) -> Option<ModelKeyView> {
    match o {
        Some(k) => Some(k@),
        None => None,
    }
}

/// The model a completion role is bound to.
#[derive(Clone, Debug, PartialEq, Eq)]
pub struct CompletionRole {
    pub account: String,
    pub model_id: String,
}

/// What a `CompletionRole` holds.
pub struct RoleView {
    pub account: Seq<char>,
    pub model_id: Seq<char>,
}

impl View for CompletionRole {
    type V = RoleView;

    open spec fn view(&self) -> RoleView {
        RoleView { account: self.account@, model_id: self.model_id@ }
    }
}

/// One message per field that does not hold up, `None` for those that do.
#[derive(Clone, Debug, PartialEq, Eq)]
pub struct ValidationErrors {
    pub name: Option<String>,
    pub protocol: Option<String>,
    pub endpoint: Option<String>,
    pub auth: Option<String>,
    pub key: Option<String>,
}

/// What a `ValidationErrors` holds.
pub struct ErrorsView {
    pub name: Option<Seq<char>>,
    pub protocol: Option<Seq<char>>,
    pub endpoint: Option<Seq<char>>,
    pub auth: Option<Seq<char>>,
    pub key: Option<Seq<char>>,
}

impl View for ValidationErrors {
    type V = ErrorsView;

    open spec fn view(&self) -> ErrorsView {
        ErrorsView {
            name: opt_text(self.name),
            protocol: opt_text(self.protocol),
            endpoint: opt_text(self.endpoint),
            auth: opt_text(self.auth),
            key: opt_text(self.key),
        }
    }
}

impl ErrorsView {
    /// Whether every field holds up.
    pub open spec fn clean(self) -> bool {
        self.name is None && self.protocol is None && self.endpoint is None && self.auth is None
            && self.key is None
    }

    /// The message on one field.
    pub open spec fn on(self, f: AccountField) -> Option<Seq<char>> {
        match f {
            AccountField::Name => self.name,
            AccountField::Protocol => self.protocol,
            AccountField::Endpoint => self.endpoint,
            AccountField::Auth => self.auth,
            AccountField::Key => self.key,
        }
    }
}

/// No message on any field.
pub open spec fn no_errors() -> ErrorsView {
    ErrorsView { name: None, protocol: None, endpoint: None, auth: None, key: None }
}

impl ValidationErrors {
    /// No message on any field.
    pub fn none() -> (r: ValidationErrors)
        ensures
            r@ == no_errors(),
    {
        ValidationErrors { name: None, protocol: None, endpoint: None, auth: None, key: None }
    }

    /// Whether every field holds up.
    pub fn is_clean(&self) -> (r: bool)
        ensures
            r == self@.clean(),
    {
        self.name.is_none() && self.protocol.is_none() && self.endpoint.is_none()
            && self.auth.is_none() && self.key.is_none()
    }

    /// The message on one field.
    pub fn on(&self, f: AccountField) -> (r: Option<String>)
        ensures
            opt_text(r) == self@.on(f),
    {
        match f {
            AccountField::Name => copy_opt_text(&self.name),
            AccountField::Protocol => copy_opt_text(&self.protocol),
            AccountField::Endpoint => copy_opt_text(&self.endpoint),
            AccountField::Auth => copy_opt_text(&self.auth),
            AccountField::Key => copy_opt_text(&self.key),
        }
    }
}

/// What is wrong with a stored account, as last computed.
#[derive(Clone, Debug, PartialEq, Eq)]
pub struct ValidationDiagnostics {
    pub computed_at_ms: u64,
    pub field_errors: ValidationErrors,
}

/// How the last connection test went.
#[derive(Clone, Debug, PartialEq, Eq)]
pub enum AccountTestStatus {
    Idle,
    Testing { started_at_ms: u64 },
    Success { dialect: String, latency_ms: u64, completed_at_ms: u64 },
    Failed { reason: String, completed_at_ms: u64 },
}

/// What an `AccountTestStatus` holds.
pub enum TestStatusView {
    Idle,
    Testing { started_at_ms: u64 },
    Success { dialect: Seq<char>, latency_ms: u64, completed_at_ms: u64 },
    Failed { reason: Seq<char>, completed_at_ms: u64 },
}

impl View for AccountTestStatus {
    type V = TestStatusView;

    open spec fn view(&self) -> TestStatusView {
        match self {
            AccountTestStatus::Idle => TestStatusView::Idle,
            AccountTestStatus::Testing { started_at_ms } => TestStatusView::Testing {
                started_at_ms: *started_at_ms,
            },
            AccountTestStatus::Success { dialect, latency_ms, completed_at_ms } =>
                TestStatusView::Success {
                dialect: dialect@,
                latency_ms: *latency_ms,
                completed_at_ms: *completed_at_ms,
            },
            AccountTestStatus::Failed { reason, completed_at_ms } => TestStatusView::Failed {
                reason: reason@,
                completed_at_ms: *completed_at_ms,
            },
        }
    }
}

/// How the last catalog refresh went.
#[derive(Clone, Debug, PartialEq, Eq)]
pub enum CatalogRefreshStatus {
    Idle,
    Refreshing { started_at_ms: u64 },
    Success { models_added: u32, models_updated: u32, completed_at_ms: u64 },
    Failed { reason: String, completed_at_ms: u64 },
}

/// What a `CatalogRefreshStatus` holds.
pub enum RefreshStatusView {
    Idle,
    Refreshing { started_at_ms: u64 },
    Success { models_added: u32, models_updated: u32, completed_at_ms: u64 },
    Failed { reason: Seq<char>, completed_at_ms: u64 },
}

impl View for CatalogRefreshStatus {
    type V = RefreshStatusView;

    open spec fn view(&self) -> RefreshStatusView {
        match self {
            CatalogRefreshStatus::Idle => RefreshStatusView::Idle,
            CatalogRefreshStatus::Refreshing { started_at_ms } => RefreshStatusView::Refreshing {
                started_at_ms: *started_at_ms,
            },
            CatalogRefreshStatus::Success { models_added, models_updated, completed_at_ms } =>
                RefreshStatusView::Success {
                models_added: *models_added,
                models_updated: *models_updated,
                completed_at_ms: *completed_at_ms,
            },
            CatalogRefreshStatus::Failed { reason, completed_at_ms } => RefreshStatusView::Failed {
                reason: reason@,
                completed_at_ms: *completed_at_ms,
            },
        }
    }
}

/// Where an index entry's badge comes from.
#[derive(Clone, Debug, PartialEq, Eq)]
pub enum BadgeSource {
    Blank,
    SubtreeCount(Path),
    BootstrapReference,
}

/// What a `BadgeSource` holds.
pub enum BadgeView {
    Blank,
    SubtreeCount(Seq<Seq<char>>),
    BootstrapReference,
}

impl View for BadgeSource {
    type V = BadgeView;

    open spec fn view(&self) -> BadgeView {
        match self {
            BadgeSource::Blank => BadgeView::Blank,
            BadgeSource::SubtreeCount(p) => BadgeView::SubtreeCount(p@),
            BadgeSource::BootstrapReference => BadgeView::BootstrapReference,
        }
    }
}

/// One entry of the settings index.
#[derive(Clone, Debug, PartialEq, Eq)]
pub struct SettingsIndexEntry {
    pub id: String,
    pub label: String,
    pub description: String,
    pub target_cursor: Path,
    pub badge: BadgeSource,
}

/// What a `SettingsIndexEntry` holds.
pub struct IndexEntryView {
    pub id: Seq<char>,
    pub label: Seq<char>,
    pub description: Seq<char>,
    pub target_cursor: Seq<Seq<char>>,
    pub badge: BadgeView,
}

impl View for SettingsIndexEntry {
    type V = IndexEntryView;

    open spec fn view(&self) -> IndexEntryView {
        IndexEntryView {
            id: self.id@,
            label: self.label@,
            description: self.description@,
            target_cursor: self.target_cursor@,
            badge: self.badge@,
        }
    }
}

} // verus!
