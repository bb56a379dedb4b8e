use stellaclaw::config::{
    parse_tool_model_target, AgentServerConfig, ChannelConfig, ModelSelection, SandboxConfig,
    SandboxMode, SessionDefaults, SessionProfile, SkillSyncConfig, StellaclawConfig,
    TelegramChannelConfig, ToolModelTarget, WebChannelConfig, LATEST_CONFIG_VERSION,
};
use stellaclaw::json::{Json, JsonNumber};
use stellaclaw::loaders::convert::{
    compression_threshold, conversion_step, convert_legacy_config, CompressionTokens,
};
use stellaclaw::loaders::estimator::{
    convert_token_estimator, local_chat_template, migrated_estimator_directory, EstimatorPlan,
    LegacyTemplate, LegacyTokenEstimation, LegacyTokenizer,
};
use stellaclaw::loaders::partyclaw::{
    join_endpoint, parse_cache_timeout_secs, ConversionStep, FileOutcome, LegacyChannelConfig,
    LegacyModelCapability, LegacyModelConfig, LegacyModelType, LegacyRetryMode,
    LegacySandboxConfig, LegacySandboxMode, LegacyServerConfig, LegacyToolingConfig,
};
use stellaclaw::loaders::upgrade::{
    detect_config_version, finish_compact_upgrade, is_partyclaw_compatible_config,
    loader_for_version, Loader,
};
use stellaclaw::model::{
    MediaInputConfig, MediaInputTransport, ModelCapability, ModelConfig, MultimodalInputConfig,
    ProviderType, RetryMode, TokenEstimatorType,
};
use stellaclaw::text_map::TextMap;
use stellaclaw::web::control::{
    control_ingress_from_text, web_control_to_channel_ingress, ControlIngress,
};
use stellaclaw::channels::ConversationControl;
use stellaclaw::web::conversations::{plan_post, PostMessageRequest, PostPlan};
use stellaclaw::web::single_session::{
    conversation_of_chat, conversations_of_channel, set_up_conversation, CreateConversationRequest,
};
use stellaclaw::web::summary::{
    conversation_model_label, conversation_remote_name, conversation_summary, list_models,
    ConversationRuntimeConfig, ConversationSummary,
};
use stellaclaw::web_terminal::ToolRemoteMode;

fn json_of(value: &serde_json::Value) -> Json {
    match value {
        serde_json::Value::Null => Json::Null,
        serde_json::Value::Bool(b) => Json::Bool(*b),
        serde_json::Value::Number(n) => match n.as_u64() {
            Some(u) => Json::Number(JsonNumber::Unsigned(u)),
            None => Json::Number(JsonNumber::Other(n.to_string())),
        },
        serde_json::Value::String(t) => Json::Text(t.clone()),
        serde_json::Value::Array(list) => Json::Array(list.iter().map(json_of).collect()),
        serde_json::Value::Object(map) => {
            Json::Object(map.iter().map(|(k, v)| (k.clone(), json_of(v))).collect())
        }
    }
}

fn parse(text: &str) -> Json {
    json_of(&serde_json::from_str(text).unwrap())
}

fn telegram() -> TelegramChannelConfig {
    TelegramChannelConfig {
        id: "telegram-main".to_string(),
        bot_token: None,
        bot_token_env: "TG_TOKEN".to_string(),
        api_base_url: "https://api.telegram.org".to_string(),
        poll_timeout_seconds: 30,
        poll_interval_ms: 250,
        admin_user_ids: vec![],
    }
}

fn legacy_model(kind: LegacyModelType, endpoint: &str, path: &str, model: &str, capabilities: Vec<LegacyModelCapability>) -> LegacyModelConfig {
    LegacyModelConfig {
        model_type: kind,
        api_endpoint: endpoint.to_string(),
        model: model.to_string(),
        supports_vision_input: false,
        image_tool_model: None,
        web_search_model: None,
        api_key_env: "OPENROUTER_API_KEY".to_string(),
        chat_completions_path: path.to_string(),
        timeout_secs: 120,
        retry_mode: LegacyRetryMode::No,
        context_window_tokens: 128000,
        cache_ttl: None,
        headers: vec![],
        reasoning: None,
        capabilities,
        native_web_search: None,
        token_estimation: None,
        multimodal_input: None,
    }
}

fn legacy_config(models: TextMap<LegacyModelConfig>, web_search: Option<&str>) -> LegacyServerConfig {
    LegacyServerConfig {
        agent_server: AgentServerConfig { path: None },
        models,
        agent_frame_models: vec!["main".to_string()],
        available_models: vec![],
        web_search_catalog: TextMap::new(),
        tooling: LegacyToolingConfig {
            web_search: web_search.map(|t| t.to_string()),
            image: None,
            image_gen: None,
            pdf: None,
            audio_input: None,
        },
        chat_model_keys: vec![],
        enable_context_compression: true,
        token_limit_override: None,
        sandbox: LegacySandboxConfig {
            mode: LegacySandboxMode::Disabled,
            bubblewrap_binary: "bwrap".to_string(),
            map_docker_socket: false,
        },
        channels: vec![LegacyChannelConfig::Telegram(telegram())],
    }
}

fn two_legacy_models() -> TextMap<LegacyModelConfig> {
    let mut models = TextMap::new();
    models.insert(
        "main",
        legacy_model(
            LegacyModelType::Openrouter,
            "https://openrouter.ai/api/v1",
            "/chat/completions",
            "openai/gpt-4.1-mini",
            vec![LegacyModelCapability::Chat, LegacyModelCapability::ImageIn],
        ),
    );
    models.insert(
        "brave",
        legacy_model(
            LegacyModelType::BraveSearch,
            "https://api.search.brave.com",
            "/res/v1/web/search",
            "brave-web-search",
            vec![LegacyModelCapability::WebSearch],
        ),
    );
    models
}

#[test]
fn converts_simple_legacy_telegram_config() {
    let config = convert_legacy_config(
        legacy_config(two_legacy_models(), Some("brave")),
        &TextMap::new(),
        CompressionTokens {
            threshold: None,
            retain_recent: None,
        },
    )
    .expect("legacy config should convert");

    assert_eq!(
        config.initial_main_model().unwrap().model_name,
        "openai/gpt-4.1-mini"
    );
    assert_eq!(config.channels.len(), 1);
    assert!(config.session_defaults.search_tool_model.is_some());
    assert_eq!(
        config.models.get("brave").unwrap().provider_type,
        ProviderType::BraveSearch
    );
}

#[test]
fn preserves_reasoning_and_imports_local_token_estimation_assets() {
    let estimation = Some(LegacyTokenEstimation {
        huggingface: false,
        repo: None,
        revision: None,
        template: Some(LegacyTemplate::Local {
            path: "chat_template.jinja".to_string(),
            field: None,
        }),
        tokenizer: Some(LegacyTokenizer::Local {
            path: "tokenizer.json".to_string(),
        }),
    });
    match convert_token_estimator("main", &estimation).unwrap() {
        EstimatorPlan::Files {
            template,
            tokenizer,
        } => {
            assert_eq!(template, "chat_template.jinja");
            assert_eq!(tokenizer, "tokenizer.json");
        }
        other => panic!("files are needed: {other:?}"),
    }
    let directory = migrated_estimator_directory("/tmp/root", "main");
    let url = format!("{directory}/tokenizer_config.json");
    let template = local_chat_template(
        "main",
        "/tmp/root/chat_template.jinja",
        Some("jinja"),
        "{{ bos_token }}{{ messages }}",
        None,
    )
    .unwrap();
    assert_eq!(template, "{{ bos_token }}{{ messages }}");

    let mut models = TextMap::new();
    let mut main = legacy_model(
        LegacyModelType::Openrouter,
        "https://openrouter.ai/api/v1",
        "/chat/completions",
        "openai/gpt-4.1-mini",
        vec![LegacyModelCapability::Chat],
    );
    main.reasoning = Some(parse(r#"{ "effort": "high", "max_tokens": 2048 }"#));
    main.token_estimation = estimation;
    models.insert("main", main);
    let mut files = TextMap::new();
    files.insert("main", FileOutcome::Ready(url));
    let config = convert_legacy_config(
        legacy_config(models, None),
        &files,
        CompressionTokens {
            threshold: None,
            retain_recent: None,
        },
    )
    .expect("legacy config should convert");
    let main = config.initial_main_model().unwrap();

    assert_eq!(
        main.reasoning.as_ref().and_then(|value| value.text_field("effort")),
        Some("high")
    );
    assert_eq!(main.token_estimator_type, TokenEstimatorType::HuggingFace);
    let estimator_url = main
        .token_estimator_url
        .as_deref()
        .expect("token estimator url should exist");
    assert!(estimator_url.ends_with("tokenizer_config.json"));
}

#[test]
fn loads_compact_v0_2_config() {
    let value = parse(r#"{"version":"0.2","models":{"main":{"type":"openrouter"}}}"#);
    assert_eq!(detect_config_version(&value), "0.2");
    assert!(is_partyclaw_compatible_config(&value));

    let mut models = TextMap::new();
    let mut main = legacy_model(
        LegacyModelType::Openrouter,
        "https://openrouter.ai/api/v1",
        "",
        "openai/gpt-4.1-mini",
        vec![LegacyModelCapability::Chat, LegacyModelCapability::ImageIn],
    );
    main.timeout_secs = 30;
    main.multimodal_input = Some(MultimodalInputConfig {
        image: Some(MediaInputConfig {
            transport: MediaInputTransport::InlineBase64,
            supported_media_types: vec!["image/png".to_string()],
            max_width: Some(2048),
            max_height: Some(2048),
        }),
        pdf: None,
        audio: None,
    });
    models.insert("main", main);
    let mut search = legacy_model(
        LegacyModelType::BraveSearch,
        "https://api.search.brave.com",
        "/res/v1/web/search",
        "brave-web-search",
        vec![LegacyModelCapability::WebSearch],
    );
    search.context_window_tokens = 32768;
    models.insert("search", search);
    let mut legacy = legacy_config(models, Some("search"));
    legacy.agent_frame_models = vec![];
    legacy.available_models = vec!["main".to_string()];
    legacy.agent_server.path = Some("target/debug/agent_server".to_string());
    legacy.token_limit_override = Some(100000);
    let threshold = compression_threshold(&legacy, Some(1));
    assert_eq!(threshold, Some(100000));
    let config = convert_legacy_config(
        legacy,
        &TextMap::new(),
        CompressionTokens {
            threshold,
            retain_recent: Some(25000),
        },
    )
    .unwrap();

    assert_eq!(
        config.agent_server.path.as_deref(),
        Some("target/debug/agent_server")
    );
    let main_model = config
        .initial_main_model()
        .expect("main model should exist");
    assert_eq!(main_model.model_name, "openai/gpt-4.1-mini");
    assert_eq!(main_model.provider_type, ProviderType::OpenRouterCompletion);
    assert!(main_model.capabilities.contains(&ModelCapability::ImageIn));
    let image_input = main_model
        .multimodal_input
        .as_ref()
        .and_then(|input| input.image.as_ref())
        .expect("image input should be configured");
    assert_eq!(image_input.supported_media_types, vec!["image/png"]);
    assert_eq!(image_input.max_width, Some(2048));
    assert_eq!(image_input.max_height, Some(2048));
    assert_eq!(
        config.session_defaults.compression_threshold_tokens,
        Some(100000)
    );
    assert_eq!(
        config.session_defaults.compression_retain_recent_tokens,
        Some(25000)
    );
    let search_model = config
        .session_defaults
        .search_tool_model
        .as_ref()
        .expect("search model target should exist")
        .resolve(&config.models, &main_model)
        .expect("search model target should resolve");
    assert_eq!(search_model.provider_type, ProviderType::BraveSearch);
    assert_eq!(
        finish_compact_upgrade(config).version,
        LATEST_CONFIG_VERSION
    );
}

fn model(provider_type: ProviderType, name: &str, url: &str, capabilities: Vec<ModelCapability>) -> ModelConfig {
    ModelConfig {
        provider_type,
        model_name: name.to_string(),
        url: url.to_string(),
        api_key_env: "TEST_API_KEY".to_string(),
        capabilities,
        token_max_context: 262144,
        cache_timeout: 300,
        conn_timeout: 300,
        retry_mode: RetryMode::Once,
        reasoning: None,
        token_estimator_type: TokenEstimatorType::Local,
        multimodal_estimator: None,
        multimodal_input: None,
        token_estimator_url: None,
    }
}

fn defaults() -> SessionDefaults {
    SessionDefaults {
        compression_threshold_tokens: None,
        compression_retain_recent_tokens: None,
        image_tool_model: None,
        pdf_tool_model: None,
        audio_tool_model: None,
        image_generation_tool_model: None,
        search_tool_model: None,
        search_image_tool_model: None,
        search_video_tool_model: None,
        search_news_tool_model: None,
    }
}

fn native_config() -> StellaclawConfig {
    let mut models = TextMap::new();
    models.insert(
        "main",
        model(
            ProviderType::ClaudeCode,
            "opus-4-6",
            "https://example.invalid/v1/messages",
            vec![ModelCapability::Chat],
        ),
    );
    StellaclawConfig {
        version: "0.2".to_string(),
        agent_server: AgentServerConfig { path: None },
        default_profile: None,
        models,
        available_agent_models: vec![],
        session_defaults: defaults(),
        skill_sync: vec![],
        sandbox: SandboxConfig::default(),
        channels: vec![ChannelConfig::Telegram(telegram())],
    }
}

#[test]
fn loads_native_runtime_config_without_default_profile() {
    let value = parse(r#"{"version":"0.2","models":{"main":{"provider_type":"claude_code"}}}"#);
    assert!(!is_partyclaw_compatible_config(&value));
    let config = native_config();

    assert!(config.default_profile.is_none());
    assert_eq!(
        config
            .initial_main_model()
            .expect("main model should exist")
            .model_name,
        "opus-4-6"
    );
}

#[test]
fn loads_native_runtime_config_with_tool_model_aliases() {
    let mut config = native_config();
    config.models.insert(
        "search",
        model(
            ProviderType::BraveSearch,
            "brave-web-search",
            "https://api.search.brave.com/res/v1/web/search",
            vec![ModelCapability::WebSearch],
        ),
    );
    config.models.insert(
        "image",
        model(
            ProviderType::OpenRouterCompletion,
            "openai/gpt-image-1",
            "https://openrouter.ai/api/v1/chat/completions",
            vec![ModelCapability::Chat, ModelCapability::ImageOut],
        ),
    );
    config.available_agent_models = vec!["main".to_string()];
    config.session_defaults.search_tool_model = Some(ToolModelTarget::Alias("search".to_string()));
    config.session_defaults.image_generation_tool_model =
        Some(ToolModelTarget::Alias("image".to_string()));
    config.session_defaults.image_tool_model =
        Some(ToolModelTarget::Alias("image:self".to_string()));
    let main_model = config
        .initial_main_model()
        .expect("main model should exist");
    let resolve = |target: &Option<ToolModelTarget>| {
        target
            .as_ref()
            .expect("target should exist")
            .resolve(&config.models, &main_model)
            .expect("target should resolve")
    };
    let search_model = resolve(&config.session_defaults.search_tool_model);
    let image_model = resolve(&config.session_defaults.image_generation_tool_model);
    let self_model = resolve(&config.session_defaults.image_tool_model);

    assert_eq!(search_model.provider_type, ProviderType::BraveSearch);
    assert_eq!(image_model.model_name, "openai/gpt-image-1");
    assert_eq!(self_model.model_name, main_model.model_name);
}

#[test]
fn named_models_take_the_place_of_written_out_ones() {
    let mut config = native_config();
    config.session_defaults.pdf_tool_model = Some(ToolModelTarget::Inline(model(
        ProviderType::ClaudeCode,
        "opus-4-6",
        "https://example.invalid/v1/messages",
        vec![ModelCapability::Chat],
    )));
    let config = finish_compact_upgrade(config);
    assert!(
        matches!(&config.session_defaults.pdf_tool_model, Some(ToolModelTarget::Alias(a)) if a == "main")
    );
    assert!(config.validate().is_ok());
}

#[test]
fn configurations_that_cannot_work_are_refused() {
    let refused = |change: &dyn Fn(&mut StellaclawConfig)| {
        let mut config = finish_compact_upgrade(native_config());
        change(&mut config);
        config.validate().unwrap_err()
    };
    assert_eq!(
        refused(&|c| c.version = "9".to_string()),
        "unsupported config version 9; expected 0.11"
    );
    assert_eq!(
        refused(&|c| c.channels = vec![]),
        "config must include at least one channel"
    );
    assert_eq!(
        refused(&|c| c.models = TextMap::new()),
        "config must include at least one model"
    );
    assert_eq!(
        refused(&|c| c.available_agent_models = vec!["x".to_string()]),
        "available_agent_models references unknown model x"
    );
    assert!(!refused(&|c| {
        c.skill_sync = vec![SkillSyncConfig {
            skill_name: vec!["../x".to_string()],
            upstream: vec![],
        }]
    })
    .is_empty());
    assert!(!refused(&|c| c.sandbox = SandboxConfig {
        mode: SandboxMode::Bubblewrap,
        bubblewrap_binary: " ".to_string(),
        software_dir: None,
        software_mount_path: "relative".to_string(),
    })
    .is_empty());
    let web = WebChannelConfig {
        id: "web".to_string(),
        bind_addr: "127.0.0.1:1".to_string(),
        token_env: "T".to_string(),
    };
    assert_eq!(web.resolve_token(Some("s")).unwrap(), "s");
    assert!(web.resolve_token(None).is_err());
    assert!(telegram().resolve_bot_token(None).is_err());
    assert_eq!(parse_tool_model_target("a:self").unwrap(), ("a", true));
    assert!(parse_tool_model_target("a:b").is_err());
}

#[test]
fn versions_find_their_loaders() {
    assert_eq!(detect_config_version(&parse("{}")), "0.1");
    assert!(matches!(loader_for_version("0.28"), Ok((Loader::Partyclaw, true))));
    assert!(matches!(loader_for_version("0.11"), Ok((Loader::Latest, _))));
    assert!(loader_for_version("7").is_err());
    assert_eq!(join_endpoint("https://a/", ""), "https://a/chat/completions");
    assert_eq!(parse_cache_timeout_secs(&Some("5m".to_string())), Some(300));
    assert_eq!(parse_cache_timeout_secs(&None), None);
}

#[test]
fn commands_become_requests_to_a_conversation() {
    let config = native_config();
    let read = |text: &str| control_ingress_from_text(&config, text, "s1");
    assert!(matches!(
        read("/cancel").unwrap(),
        Some(ControlIngress::CancelForegroundTurn { foreground_session_id, .. }) if foreground_session_id.as_deref() == Some("s1")
    ));
    match read("/model main").unwrap() {
        Some(ControlIngress::UpdateRuntimeConfig { patch }) => assert!(matches!(
            patch.session_profile,
            Some(Some(SessionProfile { main_model: ModelSelection::Alias(a) })) if a == "main"
        )),
        other => panic!("the model changes: {other:?}"),
    }
    assert_eq!(read("/model x").unwrap_err().message, "unknown model alias x");
    match read("/remote host dir").unwrap() {
        Some(ControlIngress::UpdateRuntimeConfig { patch }) => assert!(matches!(
            patch.tool_remote_mode,
            Some(ToolRemoteMode::FixedSsh { host, cwd }) if host == "host" && cwd.as_deref() == Some("dir")
        )),
        other => panic!("the tools move: {other:?}"),
    }
    assert_eq!(
        read("/remote a b c").unwrap_err().message,
        "usage: /remote <host> <path>"
    );
    assert_eq!(read("/sandbox x").unwrap_err().status, 400);
    assert!(read("/cancel now").unwrap().is_none());
    assert!(read("hello").unwrap().is_none());

    let switch = |name: &str| {
        web_control_to_channel_ingress(
            &config,
            &ConversationControl::SwitchModel {
                model_name: name.to_string(),
            },
        )
    };
    assert!(switch("main").is_ok());
    assert_eq!(switch("x").unwrap_err().message, "unknown model alias x");
    assert!(web_control_to_channel_ingress(
        &config,
        &ConversationControl::InvalidRemote {
            reason: "r".to_string()
        }
    )
    .is_err());
}

fn post(text: Option<&str>) -> PostMessageRequest {
    PostMessageRequest {
        client_message_id: Some(" id ".to_string()),
        text: text.map(|t| t.to_string()),
        user_name: None,
        selection_references: vec![],
        files: vec![],
    }
}

#[test]
fn posted_messages_are_commands_or_messages() {
    let config = native_config();
    assert!(matches!(
        plan_post(&config, "main", post(Some("/status"))).unwrap(),
        PostPlan::Control(_)
    ));
    match plan_post(&config, "main", post(Some("hi"))).unwrap() {
        PostPlan::Message {
            items,
            client_message_id,
        } => {
            assert_eq!(items.len(), 1);
            assert_eq!(client_message_id.as_deref(), Some("id"));
        }
        other => panic!("a message: {other:?}"),
    }
    assert_eq!(
        plan_post(&config, "main", post(Some(" "))).unwrap_err().message,
        "message body is empty"
    );
    assert_eq!(
        plan_post(&config, "main", post(Some("/model x"))).unwrap_err().status,
        400
    );
}

fn metadata() -> stellaclaw::web::ids::ConversationMetadata {
    stellaclaw::web::ids::ConversationMetadata {
        conversation_id: "c".to_string(),
        nickname: "c".to_string(),
        channel_id: "web-main".to_string(),
        platform_chat_id: "p".to_string(),
        foreground_session_id: "local__agent__foreground__main".to_string(),
        model_selection_pending: true,
        session_nicknames: TextMap::new(),
    }
}

#[test]
fn conversations_are_set_up_and_summed_up() {
    let config = native_config();
    let mut m = metadata();
    let request = |model: Option<&str>| CreateConversationRequest {
        platform_chat_id: None,
        model: model.map(|t| t.to_string()),
        nickname: Some(" Name ".to_string()),
    };
    assert!(set_up_conversation(&config, &mut m, &request(Some("x"))).is_err());
    assert!(m.model_selection_pending);
    let asked = set_up_conversation(&config, &mut m, &request(Some("main"))).unwrap();
    assert!(asked.is_some());
    assert!(!m.model_selection_pending);
    assert_eq!(m.nickname, "Name");

    let runtime = ConversationRuntimeConfig {
        session_profile: None,
        reasoning_effort: Some("high".to_string()),
        sandbox: None,
        tool_remote_mode: ToolRemoteMode::FixedSsh {
            host: "h\"x".to_string(),
            cwd: None,
        },
    };
    assert_eq!(conversation_model_label(Some(&runtime), &config), "main");
    assert_eq!(
        conversation_remote_name(&runtime.tool_remote_mode),
        "fixed ssh `h\"x` ``"
    );
    let summary = stellaclaw::web::history::message_summary(&vec![]);
    let payload = conversation_summary(
        &m,
        &config,
        Some(&runtime),
        "/work/c",
        stellaclaw::channels::ProcessingState::Typing,
        &summary,
        vec![],
    );
    assert_eq!(payload.text_field("conversation_name"), Some("Name"));
    assert_eq!(
        payload.text_field("remote"),
        Some("FixedSsh { host: \"h\\\"x\", cwd: None }")
    );
    assert_eq!(payload.bool_field("running"), Some(true));
    let single = ConversationSummary::from_metadata(
        &m,
        &config,
        None,
        "/work/c",
        stellaclaw::channels::ProcessingState::Idle,
        &stellaclaw::web::history::conversation_message_summary(&vec![], &None),
        &None,
    );
    let payload = single.payload();
    assert_eq!(payload.text_field("sandbox"), Some("subprocess"));
    assert_eq!(payload.text_field("remote"), Some("selectable"));
    assert_eq!(payload.text_field("reasoning"), Some("model default"));
    let models = list_models(&config);
    assert_eq!(models.unsigned_field("total"), Some(1));
    assert_eq!(models.text_field("default_model"), Some("main"));
}

#[test]
fn models_and_programs_are_found() {
    let mut config = native_config();
    assert_eq!(ModelSelection::alias("main").alias_name(), Some("main"));
    let main = config.resolve_named_model("main").unwrap();
    assert_eq!(main.model_name, "opus-4-6");
    assert!(config.resolve_named_model("other").is_none());
    assert_eq!(ModelSelection::Inline(main).alias_name(), None);
    let profile = config.initial_session_profile().unwrap();
    assert_eq!(profile.main_model.alias_name(), Some("main"));
    assert_eq!(
        config.resolve_agent_server_path(Some("/etc"), None, Some("/usr/bin"), "agent_server"),
        "/usr/bin/agent_server"
    );
    assert_eq!(
        config.resolve_agent_server_path(None, Some("/opt/server"), Some("/usr/bin"), "agent_server"),
        "/opt/server"
    );
    assert_eq!(
        config.resolve_agent_server_path(None, None, None, "agent_server"),
        "agent_server"
    );
    config.agent_server.path = Some("bin/server".to_string());
    assert_eq!(
        config.resolve_agent_server_path(Some("/etc"), Some("/opt/server"), None, "agent_server"),
        "/etc/bin/server"
    );
    assert_eq!(
        config.resolve_agent_server_path(None, None, None, "agent_server"),
        "./bin/server"
    );
    config.models = TextMap::new();
    assert_eq!(
        config.initial_session_profile().unwrap_err(),
        "config must include at least one chat-capable model"
    );
}

fn local_files() -> LegacyTokenEstimation {
    LegacyTokenEstimation {
        template: Some(LegacyTemplate::Local {
            path: "t.json".to_string(),
            field: None,
        }),
        tokenizer: Some(LegacyTokenizer::Local {
            path: "k.json".to_string(),
        }),
        huggingface: false,
        repo: None,
        revision: None,
    }
}

#[test]
fn files_are_asked_for_only_where_they_are_reached() {
    let compression = || CompressionTokens {
        threshold: None,
        retain_recent: None,
    };
    let build = |change: fn(&mut LegacyModelConfig)| {
        let mut models = two_legacy_models();
        let mut main = legacy_model(LegacyModelType::Openrouter, "e", "/p", "m", vec![LegacyModelCapability::Chat]);
        main.token_estimation = Some(local_files());
        main.cache_ttl = Some("5\u{b5}".to_string());
        change(&mut main);
        models.insert("main", main);
        legacy_config(models, None)
    };
    let mut files = TextMap::new();
    assert!(matches!(
        conversion_step(&build(|_| {}), &files),
        ConversionStep::Files { name, template, tokenizer }
            if name == "main" && template == "t.json" && tokenizer == "k.json"
    ));

    // Refused before anything is asked for.
    let mut refused = build(|_| {});
    refused.channels.clear();
    assert!(matches!(conversion_step(&refused, &files), ConversionStep::Ready));
    assert_eq!(
        convert_legacy_config(refused, &files, compression()).unwrap_err(),
        "partyclaw config must define at least one channel"
    );
    let refused = build(|m| m.headers = vec![("a".to_string(), Json::text("b"))]);
    assert!(matches!(conversion_step(&refused, &files), ConversionStep::Ready));
    assert!(convert_legacy_config(refused, &files, compression())
        .unwrap_err()
        .contains("custom headers"));

    // An earlier model is refused.
    let mut refused = build(|_| {});
    let mut brave = legacy_model(LegacyModelType::BraveSearch, "e", "/p", "b", vec![]);
    brave.native_web_search = Some(parse(r#"{"enabled": true}"#));
    refused.models.insert("brave", brave);
    assert!(matches!(conversion_step(&refused, &files), ConversionStep::Ready));
    assert!(convert_legacy_config(refused, &files, compression())
        .unwrap_err()
        .contains("native_web_search"));

    // The files cannot be had.
    files.insert("main", FileOutcome::Failed("no file".to_string()));
    assert!(matches!(conversion_step(&build(|_| {}), &files), ConversionStep::Ready));
    assert_eq!(
        convert_legacy_config(build(|_| {}), &files, compression()).unwrap_err(),
        "no file"
    );

    // Only then is the time to live read.
    files.insert("main", FileOutcome::Ready("/x".to_string()));
    assert!(matches!(
        conversion_step(&build(|_| {}), &files),
        ConversionStep::TimeToLive { name } if name == "main"
    ));
    let fine = build(|m| m.cache_ttl = Some("5m".to_string()));
    assert!(matches!(conversion_step(&fine, &files), ConversionStep::Ready));
    let config = convert_legacy_config(fine, &files, compression()).unwrap();
    let main = config.models.get("main").unwrap();
    assert_eq!(main.cache_timeout, 300);
    assert_eq!(main.token_estimator_url.as_deref(), Some("/x"));
    assert!(main.multimodal_estimator.is_none());
    assert!(config.session_defaults.search_news_tool_model.is_none());
}

#[test]
fn conversations_are_found_by_channel_and_chat() {
    let of = |id: &str, channel: &str, chat: &str| {
        let mut m = metadata();
        m.conversation_id = id.to_string();
        m.channel_id = channel.to_string();
        m.platform_chat_id = chat.to_string();
        m
    };
    let list = || vec![of("1", "a", "x"), of("2", "b", "x"), of("3", "b", "y"), of("4", "b", "x")];
    let own: Vec<String> = conversations_of_channel(list(), "b")
        .into_iter()
        .map(|m| m.conversation_id)
        .collect();
    assert_eq!(own, vec!["2", "3", "4"]);
    assert_eq!(conversation_of_chat(list(), "b", "x").unwrap().conversation_id, "2");
    assert!(conversation_of_chat(list(), "a", "y").is_none());
}
