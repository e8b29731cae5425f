use vstd::prelude::*;

use crate::anki::{AnkiExportTemplate, AnkiField};
use crate::models::{clone_opt, parse_words, parse_words_spec, QueryStatus, WordEntry};
use crate::providers::ProviderKind;
use crate::text::{
    ascii_lowercase_spec, contains_string, lemma_lex_total, lemma_lex_transitive, lex_le, lex_le_exec,
    lowercase, non_empty_spec, non_empty_trimmed, str_eq, to_ascii_lowercase, to_lowercase, trim,
    trim_spec,
};

verus! {

/// The languages of the user interface.
#[derive(Debug, Clone, Copy, PartialEq, Eq, Structural)]
pub enum UiLanguage {
    ZhHans,
    En,
}

impl UiLanguage {
    pub const ALL: [UiLanguage; 2] = [UiLanguage::ZhHans, UiLanguage::En];

    /// The name of the language, in itself.
    pub open spec fn label_spec(self) -> Seq<char> {
        match self {
            UiLanguage::ZhHans => "简体中文"@,
            UiLanguage::En => "English"@,
        }
    }

    /// The name of the language, in itself.
    pub fn label(self) -> (r: &'static str)
        ensures
            r@ == self.label_spec(),
    {
        match self {
            UiLanguage::ZhHans => "简体中文",
            UiLanguage::En => "English",
        }
    }
}

/// The languages that a dictionary lookup can go from and to.
#[derive(Debug, Clone, Copy, PartialEq, Eq, Structural)]
pub enum DictionaryLanguage {
    English,
    ChineseSimplified,
    ChineseTraditional,
    Japanese,
    Korean,
    French,
    German,
    Spanish,
}

impl DictionaryLanguage {
    pub const ALL: [DictionaryLanguage; 8] = [
        DictionaryLanguage::English,
        DictionaryLanguage::ChineseSimplified,
        DictionaryLanguage::ChineseTraditional,
        DictionaryLanguage::Japanese,
        DictionaryLanguage::Korean,
        DictionaryLanguage::French,
        DictionaryLanguage::German,
        DictionaryLanguage::Spanish,
    ];

    /// The name of the language in the interface language.
    pub open spec fn label_spec(self, ui_language: UiLanguage) -> Seq<char> {
        match ui_language {
            UiLanguage::ZhHans => match self {
                DictionaryLanguage::English => "英语"@,
                DictionaryLanguage::ChineseSimplified => "简体中文"@,
                DictionaryLanguage::ChineseTraditional => "繁体中文"@,
                DictionaryLanguage::Japanese => "日语"@,
                DictionaryLanguage::Korean => "韩语"@,
                DictionaryLanguage::French => "法语"@,
                DictionaryLanguage::German => "德语"@,
                DictionaryLanguage::Spanish => "西班牙语"@,
            },
            UiLanguage::En => self.prompt_name_spec(),
        }
    }

    /// The name of the language in the interface language.
    pub fn label(self, ui_language: UiLanguage) -> (r: &'static str)
        ensures
            r@ == self.label_spec(ui_language),
    {
        match ui_language {
            UiLanguage::ZhHans => match self {
                DictionaryLanguage::English => "英语",
                DictionaryLanguage::ChineseSimplified => "简体中文",
                DictionaryLanguage::ChineseTraditional => "繁体中文",
                DictionaryLanguage::Japanese => "日语",
                DictionaryLanguage::Korean => "韩语",
                DictionaryLanguage::French => "法语",
                DictionaryLanguage::German => "德语",
                DictionaryLanguage::Spanish => "西班牙语",
            },
            UiLanguage::En => self.prompt_name(),
        }
    }

    /// The English name of the language, as the AI prompt uses it.
    pub open spec fn prompt_name_spec(self) -> Seq<char> {
        match self {
            DictionaryLanguage::English => "English"@,
            DictionaryLanguage::ChineseSimplified => "Simplified Chinese"@,
            DictionaryLanguage::ChineseTraditional => "Traditional Chinese"@,
            DictionaryLanguage::Japanese => "Japanese"@,
            DictionaryLanguage::Korean => "Korean"@,
            DictionaryLanguage::French => "French"@,
            DictionaryLanguage::German => "German"@,
            DictionaryLanguage::Spanish => "Spanish"@,
        }
    }

    /// The English name of the language, as the AI prompt uses it.
    pub fn prompt_name(self) -> (r: &'static str)
        ensures
            r@ == self.prompt_name_spec(),
    {
        match self {
            DictionaryLanguage::English => "English",
            DictionaryLanguage::ChineseSimplified => "Simplified Chinese",
            DictionaryLanguage::ChineseTraditional => "Traditional Chinese",
            DictionaryLanguage::Japanese => "Japanese",
            DictionaryLanguage::Korean => "Korean",
            DictionaryLanguage::French => "French",
            DictionaryLanguage::German => "German",
            DictionaryLanguage::Spanish => "Spanish",
        }
    }
}

/// The texts of the user interface, by purpose.
#[derive(Debug, Clone, Copy, PartialEq, Eq, Structural)]
pub enum UiText {
    Querying,
    InputEmpty,
    SavedJson,
    LoadedJson,
    ExportedAnki,
    SafetyTitle,
    SafetyHeading,
    SafetyBody1,
    SafetyBody2,
    SafetyBody3,
    Understood,
    Query,
    UiLanguage,
    WordList,
    Provider,
    SourceLanguage,
    TargetLanguage,
    LanguageOpenaiOnly,
    AiModel,
    AiApiBaseUrl,
    ConfigPath,
    ForceRefresh,
    Concurrency,
    Start,
    SavePath,
    LoadPath,
    Choose,
    SaveJson,
    LoadJson,
    Messages,
    NoError,
    QueryStatus,
    Word,
    Status,
    AiStatus,
    QueryType,
    Source,
    ReasonError,
    ResultPreviewPrefix,
    ResultPreviewSuffix,
    Phonetic,
    QueriedAt,
    AiReason,
    Example,
    AnkiExport,
    Format,
    Template,
    IncludePhonetic,
    IncludeExamples,
    IncludeSourceDefinition,
    IncludeTargetDefinition,
    IncludeSource,
    IncludePosHint,
    BasicFrontFields,
    BasicBackFields,
    ExportPath,
    ExportAnki,
}

/// The text shown for `key` in `language`.
pub open spec fn tr_spec(language: UiLanguage, key: UiText) -> Seq<char> {
    match language {
        UiLanguage::ZhHans => {
            match key {
                UiText::Querying => "查询中"@,
                UiText::InputEmpty => "请输入至少一个词条"@,
                UiText::SavedJson => "已保存 JSON"@,
                UiText::LoadedJson => "已加载 JSON"@,
                UiText::ExportedAnki => "已导出 Anki 文件"@,
                UiText::SafetyTitle => "安全提醒"@,
                UiText::SafetyHeading => "请在使用前仔细阅读"@,
                UiText::SafetyBody1 => "本项目代码由 AI 辅助生成。使用、修改、发布或集成前，请务必进行人工审查，重点检查代码逻辑、网络请求、本地文件读写、依赖来源和许可证兼容性，并自行承担相应风险。"@,
                UiText::SafetyBody2 => "在运行本项目的可执行文件前，建议先使用 VirusTotal 等工具扫描，并在沙盒环境中进行检查。本项目不能保证构建环境绝对干净安全；如果您对此有顾虑，请不要使用本软件。"@,
                UiText::SafetyBody3 => "如果您发现任何代码安全问题、版权问题或许可证问题，请在 GitHub Issues 中提出。感谢您的理解。"@,
                UiText::Understood => "我已了解"@,
                UiText::Query => "查询"@,
                UiText::UiLanguage => "界面语言"@,
                UiText::WordList => "逗号分隔的词条列表"@,
                UiText::Provider => "词典源"@,
                UiText::SourceLanguage => "词典源语言"@,
                UiText::TargetLanguage => "词典目标语言"@,
                UiText::LanguageOpenaiOnly => "源语言和目标语言仅适用于 AI API 词典源。"@,
                UiText::AiModel => "AI 模型"@,
                UiText::AiApiBaseUrl => "AI API Base URL（OpenAI 兼容）"@,
                UiText::ConfigPath => "配置文件路径（可选）"@,
                UiText::ForceRefresh => "强制刷新已有词条"@,
                UiText::Concurrency => "并发数"@,
                UiText::Start => "开始查询"@,
                UiText::SavePath => "保存路径"@,
                UiText::LoadPath => "加载路径"@,
                UiText::Choose => "选择"@,
                UiText::SaveJson => "保存 JSON"@,
                UiText::LoadJson => "加载 JSON"@,
                UiText::Messages => "消息"@,
                UiText::NoError => "无错误"@,
                UiText::QueryStatus => "查询状态"@,
                UiText::Word => "词条"@,
                UiText::Status => "状态"@,
                UiText::AiStatus => "AI 返回"@,
                UiText::QueryType => "查询类型"@,
                UiText::Source => "来源"@,
                UiText::ReasonError => "原因/错误"@,
                UiText::ResultPreviewPrefix => "结果预览（"@,
                UiText::ResultPreviewSuffix => " 条）"@,
                UiText::Phonetic => "音标"@,
                UiText::QueriedAt => "查询时间"@,
                UiText::AiReason => "AI 原因"@,
                UiText::Example => "例句"@,
                UiText::AnkiExport => "Anki 导出"@,
                UiText::Format => "格式"@,
                UiText::Template => "模板"@,
                UiText::IncludePhonetic => "包含音标"@,
                UiText::IncludeExamples => "包含例句"@,
                UiText::IncludeSourceDefinition => "包含源语言释义"@,
                UiText::IncludeTargetDefinition => "包含目标语言释义"@,
                UiText::IncludeSource => "包含来源"@,
                UiText::IncludePosHint => "反向卡包含词性"@,
                UiText::BasicFrontFields => "Basic 正面字段"@,
                UiText::BasicBackFields => "Basic 背面字段"@,
                UiText::ExportPath => "导出路径"@,
                UiText::ExportAnki => "导出 Anki 文件"@,
            }
        },
        UiLanguage::En => {
            match key {
                UiText::Querying => "Querying"@,
                UiText::InputEmpty => "Please enter at least one entry"@,
                UiText::SavedJson => "Saved JSON"@,
                UiText::LoadedJson => "Loaded JSON"@,
                UiText::ExportedAnki => "Exported Anki file"@,
                UiText::SafetyTitle => "Safety Notice"@,
                UiText::SafetyHeading => "Please read before use"@,
                UiText::SafetyBody1 => "This project was built with AI assistance. Before using, modifying, publishing, or integrating it, manually review the code logic, network requests, local file access, dependency sources, and license compatibility. You are responsible for your own risk."@,
                UiText::SafetyBody2 => "Before running this project's executable, consider scanning it with tools such as VirusTotal and checking it in a sandbox. This project cannot guarantee that every build environment is completely clean or safe; if that concerns you, do not use this software."@,
                UiText::SafetyBody3 => "If you find any code safety, copyright, or license issue, please report it in GitHub Issues. Thank you for understanding."@,
                UiText::Understood => "Understood"@,
                UiText::Query => "Query"@,
                UiText::UiLanguage => "Interface Language"@,
                UiText::WordList => "Comma-separated entry list"@,
                UiText::Provider => "Dictionary Source"@,
                UiText::SourceLanguage => "Source Language"@,
                UiText::TargetLanguage => "Target Language"@,
                UiText::LanguageOpenaiOnly => "Source and target languages only apply to the AI API dictionary source."@,
                UiText::AiModel => "AI Model"@,
                UiText::AiApiBaseUrl => "AI API Base URL (OpenAI-compatible)"@,
                UiText::ConfigPath => "Config File Path (optional)"@,
                UiText::ForceRefresh => "Refresh existing entries"@,
                UiText::Concurrency => "Concurrency"@,
                UiText::Start => "Start Query"@,
                UiText::SavePath => "Save Path"@,
                UiText::LoadPath => "Load Path"@,
                UiText::Choose => "Choose"@,
                UiText::SaveJson => "Save JSON"@,
                UiText::LoadJson => "Load JSON"@,
                UiText::Messages => "Messages"@,
                UiText::NoError => "No errors"@,
                UiText::QueryStatus => "Query Status"@,
                UiText::Word => "Entry"@,
                UiText::Status => "Status"@,
                UiText::AiStatus => "AI Status"@,
                UiText::QueryType => "Query Type"@,
                UiText::Source => "Source"@,
                UiText::ReasonError => "Reason/Error"@,
                UiText::ResultPreviewPrefix => "Result Preview ("@,
                UiText::ResultPreviewSuffix => " entries)"@,
                UiText::Phonetic => "Phonetic"@,
                UiText::QueriedAt => "Queried At"@,
                UiText::AiReason => "AI Reason"@,
                UiText::Example => "Example"@,
                UiText::AnkiExport => "Anki Export"@,
                UiText::Format => "Format"@,
                UiText::Template => "Template"@,
                UiText::IncludePhonetic => "Include phonetic"@,
                UiText::IncludeExamples => "Include examples"@,
                UiText::IncludeSourceDefinition => "Include source-language definitions"@,
                UiText::IncludeTargetDefinition => "Include target-language definitions"@,
                UiText::IncludeSource => "Include source"@,
                UiText::IncludePosHint => "Include part of speech on reverse cards"@,
                UiText::BasicFrontFields => "Basic Front Fields"@,
                UiText::BasicBackFields => "Basic Back Fields"@,
                UiText::ExportPath => "Export Path"@,
                UiText::ExportAnki => "Export Anki File"@,
            }
        },
    }
}

/// Law: every text of the interface has a label in both languages, and no
/// label is empty.
pub proof fn lemma_tr_labels_non_empty(key: UiText)
    ensures
        tr_spec(UiLanguage::ZhHans, key).len() > 0,
        tr_spec(UiLanguage::En, key).len() > 0,
{
    match key {
        UiText::Querying => {
            reveal_strlit("查询中");
            reveal_strlit("Querying");
        },
        UiText::InputEmpty => {
            reveal_strlit("请输入至少一个词条");
            reveal_strlit("Please enter at least one entry");
        },
        UiText::SavedJson => {
            reveal_strlit("已保存 JSON");
            reveal_strlit("Saved JSON");
        },
        UiText::LoadedJson => {
            reveal_strlit("已加载 JSON");
            reveal_strlit("Loaded JSON");
        },
        UiText::ExportedAnki => {
            reveal_strlit("已导出 Anki 文件");
            reveal_strlit("Exported Anki file");
        },
        UiText::SafetyTitle => {
            reveal_strlit("安全提醒");
            reveal_strlit("Safety Notice");
        },
        UiText::SafetyHeading => {
            reveal_strlit("请在使用前仔细阅读");
            reveal_strlit("Please read before use");
        },
        UiText::SafetyBody1 => {
            reveal_strlit("本项目代码由 AI 辅助生成。使用、修改、发布或集成前，请务必进行人工审查，重点检查代码逻辑、网络请求、本地文件读写、依赖来源和许可证兼容性，并自行承担相应风险。");
            reveal_strlit("This project was built with AI assistance. Before using, modifying, publishing, or integrating it, manually review the code logic, network requests, local file access, dependency sources, and license compatibility. You are responsible for your own risk.");
        },
        UiText::SafetyBody2 => {
            reveal_strlit("在运行本项目的可执行文件前，建议先使用 VirusTotal 等工具扫描，并在沙盒环境中进行检查。本项目不能保证构建环境绝对干净安全；如果您对此有顾虑，请不要使用本软件。");
            reveal_strlit("Before running this project's executable, consider scanning it with tools such as VirusTotal and checking it in a sandbox. This project cannot guarantee that every build environment is completely clean or safe; if that concerns you, do not use this software.");
        },
        UiText::SafetyBody3 => {
            reveal_strlit("如果您发现任何代码安全问题、版权问题或许可证问题，请在 GitHub Issues 中提出。感谢您的理解。");
            reveal_strlit("If you find any code safety, copyright, or license issue, please report it in GitHub Issues. Thank you for understanding.");
        },
        UiText::Understood => {
            reveal_strlit("我已了解");
            reveal_strlit("Understood");
        },
        UiText::Query => {
            reveal_strlit("查询");
            reveal_strlit("Query");
        },
        UiText::UiLanguage => {
            reveal_strlit("界面语言");
            reveal_strlit("Interface Language");
        },
        UiText::WordList => {
            reveal_strlit("逗号分隔的词条列表");
            reveal_strlit("Comma-separated entry list");
        },
        UiText::Provider => {
            reveal_strlit("词典源");
            reveal_strlit("Dictionary Source");
        },
        UiText::SourceLanguage => {
            reveal_strlit("词典源语言");
            reveal_strlit("Source Language");
        },
        UiText::TargetLanguage => {
            reveal_strlit("词典目标语言");
            reveal_strlit("Target Language");
        },
        UiText::LanguageOpenaiOnly => {
            reveal_strlit("源语言和目标语言仅适用于 AI API 词典源。");
            reveal_strlit("Source and target languages only apply to the AI API dictionary source.");
        },
        UiText::AiModel => {
            reveal_strlit("AI 模型");
            reveal_strlit("AI Model");
        },
        UiText::AiApiBaseUrl => {
            reveal_strlit("AI API Base URL（OpenAI 兼容）");
            reveal_strlit("AI API Base URL (OpenAI-compatible)");
        },
        UiText::ConfigPath => {
            reveal_strlit("配置文件路径（可选）");
            reveal_strlit("Config File Path (optional)");
        },
        UiText::ForceRefresh => {
            reveal_strlit("强制刷新已有词条");
            reveal_strlit("Refresh existing entries");
        },
        UiText::Concurrency => {
            reveal_strlit("并发数");
            reveal_strlit("Concurrency");
        },
        UiText::Start => {
            reveal_strlit("开始查询");
            reveal_strlit("Start Query");
        },
        UiText::SavePath => {
            reveal_strlit("保存路径");
            reveal_strlit("Save Path");
        },
        UiText::LoadPath => {
            reveal_strlit("加载路径");
            reveal_strlit("Load Path");
        },
        UiText::Choose => {
            reveal_strlit("选择");
            reveal_strlit("Choose");
        },
        UiText::SaveJson => {
            reveal_strlit("保存 JSON");
            reveal_strlit("Save JSON");
        },
        UiText::LoadJson => {
            reveal_strlit("加载 JSON");
            reveal_strlit("Load JSON");
        },
        UiText::Messages => {
            reveal_strlit("消息");
            reveal_strlit("Messages");
        },
        UiText::NoError => {
            reveal_strlit("无错误");
            reveal_strlit("No errors");
        },
        UiText::QueryStatus => {
            reveal_strlit("查询状态");
            reveal_strlit("Query Status");
        },
        UiText::Word => {
            reveal_strlit("词条");
            reveal_strlit("Entry");
        },
        UiText::Status => {
            reveal_strlit("状态");
            reveal_strlit("Status");
        },
        UiText::AiStatus => {
            reveal_strlit("AI 返回");
            reveal_strlit("AI Status");
        },
        UiText::QueryType => {
            reveal_strlit("查询类型");
            reveal_strlit("Query Type");
        },
        UiText::Source => {
            reveal_strlit("来源");
            reveal_strlit("Source");
        },
        UiText::ReasonError => {
            reveal_strlit("原因/错误");
            reveal_strlit("Reason/Error");
        },
        UiText::ResultPreviewPrefix => {
            reveal_strlit("结果预览（");
            reveal_strlit("Result Preview (");
        },
        UiText::ResultPreviewSuffix => {
            reveal_strlit(" 条）");
            reveal_strlit(" entries)");
        },
        UiText::Phonetic => {
            reveal_strlit("音标");
            reveal_strlit("Phonetic");
        },
        UiText::QueriedAt => {
            reveal_strlit("查询时间");
            reveal_strlit("Queried At");
        },
        UiText::AiReason => {
            reveal_strlit("AI 原因");
            reveal_strlit("AI Reason");
        },
        UiText::Example => {
            reveal_strlit("例句");
            reveal_strlit("Example");
        },
        UiText::AnkiExport => {
            reveal_strlit("Anki 导出");
            reveal_strlit("Anki Export");
        },
        UiText::Format => {
            reveal_strlit("格式");
            reveal_strlit("Format");
        },
        UiText::Template => {
            reveal_strlit("模板");
            reveal_strlit("Template");
        },
        UiText::IncludePhonetic => {
            reveal_strlit("包含音标");
            reveal_strlit("Include phonetic");
        },
        UiText::IncludeExamples => {
            reveal_strlit("包含例句");
            reveal_strlit("Include examples");
        },
        UiText::IncludeSourceDefinition => {
            reveal_strlit("包含源语言释义");
            reveal_strlit("Include source-language definitions");
        },
        UiText::IncludeTargetDefinition => {
            reveal_strlit("包含目标语言释义");
            reveal_strlit("Include target-language definitions");
        },
        UiText::IncludeSource => {
            reveal_strlit("包含来源");
            reveal_strlit("Include source");
        },
        UiText::IncludePosHint => {
            reveal_strlit("反向卡包含词性");
            reveal_strlit("Include part of speech on reverse cards");
        },
        UiText::BasicFrontFields => {
            reveal_strlit("Basic 正面字段");
            reveal_strlit("Basic Front Fields");
        },
        UiText::BasicBackFields => {
            reveal_strlit("Basic 背面字段");
            reveal_strlit("Basic Back Fields");
        },
        UiText::ExportPath => {
            reveal_strlit("导出路径");
            reveal_strlit("Export Path");
        },
        UiText::ExportAnki => {
            reveal_strlit("导出 Anki 文件");
            reveal_strlit("Export Anki File");
        },
    }
}

/// The text shown for `key` in `language`.
pub fn tr(language: UiLanguage, key: UiText) -> (r: &'static str)
    ensures
        r@ == tr_spec(language, key),
{
    match language {
        UiLanguage::ZhHans => {
            match key {
                UiText::Querying => "查询中",
                UiText::InputEmpty => "请输入至少一个词条",
                UiText::SavedJson => "已保存 JSON",
                UiText::LoadedJson => "已加载 JSON",
                UiText::ExportedAnki => "已导出 Anki 文件",
                UiText::SafetyTitle => "安全提醒",
                UiText::SafetyHeading => "请在使用前仔细阅读",
                UiText::SafetyBody1 => "本项目代码由 AI 辅助生成。使用、修改、发布或集成前，请务必进行人工审查，重点检查代码逻辑、网络请求、本地文件读写、依赖来源和许可证兼容性，并自行承担相应风险。",
                UiText::SafetyBody2 => "在运行本项目的可执行文件前，建议先使用 VirusTotal 等工具扫描，并在沙盒环境中进行检查。本项目不能保证构建环境绝对干净安全；如果您对此有顾虑，请不要使用本软件。",
                UiText::SafetyBody3 => "如果您发现任何代码安全问题、版权问题或许可证问题，请在 GitHub Issues 中提出。感谢您的理解。",
                UiText::Understood => "我已了解",
                UiText::Query => "查询",
                UiText::UiLanguage => "界面语言",
                UiText::WordList => "逗号分隔的词条列表",
                UiText::Provider => "词典源",
                UiText::SourceLanguage => "词典源语言",
                UiText::TargetLanguage => "词典目标语言",
                UiText::LanguageOpenaiOnly => "源语言和目标语言仅适用于 AI API 词典源。",
                UiText::AiModel => "AI 模型",
                UiText::AiApiBaseUrl => "AI API Base URL（OpenAI 兼容）",
                UiText::ConfigPath => "配置文件路径（可选）",
                UiText::ForceRefresh => "强制刷新已有词条",
                UiText::Concurrency => "并发数",
                UiText::Start => "开始查询",
                UiText::SavePath => "保存路径",
                UiText::LoadPath => "加载路径",
                UiText::Choose => "选择",
                UiText::SaveJson => "保存 JSON",
                UiText::LoadJson => "加载 JSON",
                UiText::Messages => "消息",
                UiText::NoError => "无错误",
                UiText::QueryStatus => "查询状态",
                UiText::Word => "词条",
                UiText::Status => "状态",
                UiText::AiStatus => "AI 返回",
                UiText::QueryType => "查询类型",
                UiText::Source => "来源",
                UiText::ReasonError => "原因/错误",
                UiText::ResultPreviewPrefix => "结果预览（",
                UiText::ResultPreviewSuffix => " 条）",
                UiText::Phonetic => "音标",
                UiText::QueriedAt => "查询时间",
                UiText::AiReason => "AI 原因",
                UiText::Example => "例句",
                UiText::AnkiExport => "Anki 导出",
                UiText::Format => "格式",
                UiText::Template => "模板",
                UiText::IncludePhonetic => "包含音标",
                UiText::IncludeExamples => "包含例句",
                UiText::IncludeSourceDefinition => "包含源语言释义",
                UiText::IncludeTargetDefinition => "包含目标语言释义",
                UiText::IncludeSource => "包含来源",
                UiText::IncludePosHint => "反向卡包含词性",
                UiText::BasicFrontFields => "Basic 正面字段",
                UiText::BasicBackFields => "Basic 背面字段",
                UiText::ExportPath => "导出路径",
                UiText::ExportAnki => "导出 Anki 文件",
            }
        },
        UiLanguage::En => {
            match key {
                UiText::Querying => "Querying",
                UiText::InputEmpty => "Please enter at least one entry",
                UiText::SavedJson => "Saved JSON",
                UiText::LoadedJson => "Loaded JSON",
                UiText::ExportedAnki => "Exported Anki file",
                UiText::SafetyTitle => "Safety Notice",
                UiText::SafetyHeading => "Please read before use",
                UiText::SafetyBody1 => "This project was built with AI assistance. Before using, modifying, publishing, or integrating it, manually review the code logic, network requests, local file access, dependency sources, and license compatibility. You are responsible for your own risk.",
                UiText::SafetyBody2 => "Before running this project's executable, consider scanning it with tools such as VirusTotal and checking it in a sandbox. This project cannot guarantee that every build environment is completely clean or safe; if that concerns you, do not use this software.",
                UiText::SafetyBody3 => "If you find any code safety, copyright, or license issue, please report it in GitHub Issues. Thank you for understanding.",
                UiText::Understood => "Understood",
                UiText::Query => "Query",
                UiText::UiLanguage => "Interface Language",
                UiText::WordList => "Comma-separated entry list",
                UiText::Provider => "Dictionary Source",
                UiText::SourceLanguage => "Source Language",
                UiText::TargetLanguage => "Target Language",
                UiText::LanguageOpenaiOnly => "Source and target languages only apply to the AI API dictionary source.",
                UiText::AiModel => "AI Model",
                UiText::AiApiBaseUrl => "AI API Base URL (OpenAI-compatible)",
                UiText::ConfigPath => "Config File Path (optional)",
                UiText::ForceRefresh => "Refresh existing entries",
                UiText::Concurrency => "Concurrency",
                UiText::Start => "Start Query",
                UiText::SavePath => "Save Path",
                UiText::LoadPath => "Load Path",
                UiText::Choose => "Choose",
                UiText::SaveJson => "Save JSON",
                UiText::LoadJson => "Load JSON",
                UiText::Messages => "Messages",
                UiText::NoError => "No errors",
                UiText::QueryStatus => "Query Status",
                UiText::Word => "Entry",
                UiText::Status => "Status",
                UiText::AiStatus => "AI Status",
                UiText::QueryType => "Query Type",
                UiText::Source => "Source",
                UiText::ReasonError => "Reason/Error",
                UiText::ResultPreviewPrefix => "Result Preview (",
                UiText::ResultPreviewSuffix => " entries)",
                UiText::Phonetic => "Phonetic",
                UiText::QueriedAt => "Queried At",
                UiText::AiReason => "AI Reason",
                UiText::Example => "Example",
                UiText::AnkiExport => "Anki Export",
                UiText::Format => "Format",
                UiText::Template => "Template",
                UiText::IncludePhonetic => "Include phonetic",
                UiText::IncludeExamples => "Include examples",
                UiText::IncludeSourceDefinition => "Include source-language definitions",
                UiText::IncludeTargetDefinition => "Include target-language definitions",
                UiText::IncludeSource => "Include source",
                UiText::IncludePosHint => "Include part of speech on reverse cards",
                UiText::BasicFrontFields => "Basic Front Fields",
                UiText::BasicBackFields => "Basic Back Fields",
                UiText::ExportPath => "Export Path",
                UiText::ExportAnki => "Export Anki File",
            }
        },
    }
}


/// The name of a dictionary source in the interface language.
pub open spec fn provider_label_spec(kind: ProviderKind, language: UiLanguage) -> Seq<char> {
    match language {
        UiLanguage::ZhHans => match kind {
            ProviderKind::Ecdict => "ECDICT 本地词典"@,
            ProviderKind::Mock => "Mock Provider"@,
            ProviderKind::HttpDictionary => "Free Dictionary API"@,
            ProviderKind::OpenAi => "AI API（OpenAI 兼容）"@,
        },
        UiLanguage::En => match kind {
            ProviderKind::Ecdict => "ECDICT Local Dictionary"@,
            ProviderKind::Mock => "Mock Provider"@,
            ProviderKind::HttpDictionary => "Free Dictionary API"@,
            ProviderKind::OpenAi => "AI API (OpenAI-compatible)"@,
        },
    }
}

/// The name of a dictionary source in the interface language.
pub fn provider_label(kind: ProviderKind, language: UiLanguage) -> (r: &'static str)
    ensures
        r@ == provider_label_spec(kind, language),
{
    match language {
        UiLanguage::ZhHans => match kind {
            ProviderKind::Ecdict => "ECDICT 本地词典",
            ProviderKind::Mock => "Mock Provider",
            ProviderKind::HttpDictionary => "Free Dictionary API",
            ProviderKind::OpenAi => "AI API（OpenAI 兼容）",
        },
        UiLanguage::En => match kind {
            ProviderKind::Ecdict => "ECDICT Local Dictionary",
            ProviderKind::Mock => "Mock Provider",
            ProviderKind::HttpDictionary => "Free Dictionary API",
            ProviderKind::OpenAi => "AI API (OpenAI-compatible)",
        },
    }
}

/// The name of a lookup status in the interface language.
pub open spec fn status_label_spec(status: QueryStatus, language: UiLanguage) -> Seq<char> {
    match language {
        UiLanguage::ZhHans => match status {
            QueryStatus::Success => "成功"@,
            QueryStatus::Failed => "失败"@,
            QueryStatus::PartialSuccess => "部分成功"@,
            QueryStatus::Skipped => "已跳过"@,
        },
        UiLanguage::En => match status {
            QueryStatus::Success => "Success"@,
            QueryStatus::Failed => "Failed"@,
            QueryStatus::PartialSuccess => "Partial Success"@,
            QueryStatus::Skipped => "Skipped"@,
        },
    }
}

/// The name of a lookup status in the interface language.
pub fn status_label(status: &QueryStatus, language: UiLanguage) -> (r: &'static str)
    ensures
        r@ == status_label_spec(*status, language),
{
    match language {
        UiLanguage::ZhHans => match *status {
            QueryStatus::Success => "成功",
            QueryStatus::Failed => "失败",
            QueryStatus::PartialSuccess => "部分成功",
            QueryStatus::Skipped => "已跳过",
        },
        UiLanguage::En => match *status {
            QueryStatus::Success => "Success",
            QueryStatus::Failed => "Failed",
            QueryStatus::PartialSuccess => "Partial Success",
            QueryStatus::Skipped => "Skipped",
        },
    }
}

/// The name of a card layout in the interface language.
pub open spec fn template_label_spec(template: AnkiExportTemplate, language: UiLanguage) -> Seq<char> {
    match language {
        UiLanguage::ZhHans => match template {
            AnkiExportTemplate::Detailed => "词条详情模板"@,
            AnkiExportTemplate::BasicFrontBack => "Basic 正反面卡"@,
            AnkiExportTemplate::ChineseToEnglish => "目标语言到源语言反向卡"@,
            AnkiExportTemplate::TypeAnswer => "输入答案卡"@,
        },
        UiLanguage::En => match template {
            AnkiExportTemplate::Detailed => "Detailed Entry Template"@,
            AnkiExportTemplate::BasicFrontBack => "Basic Front/Back Card"@,
            AnkiExportTemplate::ChineseToEnglish => "Target-to-Source Reverse Card"@,
            AnkiExportTemplate::TypeAnswer => "Type Answer Card"@,
        },
    }
}

/// The name of a card layout in the interface language.
pub fn template_label(template: AnkiExportTemplate, language: UiLanguage) -> (r: &'static str)
    ensures
        r@ == template_label_spec(template, language),
{
    match language {
        UiLanguage::ZhHans => match template {
            AnkiExportTemplate::Detailed => "词条详情模板",
            AnkiExportTemplate::BasicFrontBack => "Basic 正反面卡",
            AnkiExportTemplate::ChineseToEnglish => "目标语言到源语言反向卡",
            AnkiExportTemplate::TypeAnswer => "输入答案卡",
        },
        UiLanguage::En => match template {
            AnkiExportTemplate::Detailed => "Detailed Entry Template",
            AnkiExportTemplate::BasicFrontBack => "Basic Front/Back Card",
            AnkiExportTemplate::ChineseToEnglish => "Target-to-Source Reverse Card",
            AnkiExportTemplate::TypeAnswer => "Type Answer Card",
        },
    }
}

/// The name of a card field in the interface language.
pub open spec fn anki_field_label_spec(field: AnkiField, language: UiLanguage) -> Seq<char> {
    match language {
        UiLanguage::ZhHans => match field {
            AnkiField::Word => "词条"@,
            AnkiField::Phonetic => "音标"@,
            AnkiField::PartOfSpeech => "词性"@,
            AnkiField::EnglishDefinition => "源语言释义"@,
            AnkiField::ChineseDefinition => "目标语言释义"@,
            AnkiField::Examples => "例句"@,
            AnkiField::ExampleTranslations => "例句翻译"@,
            AnkiField::Source => "来源"@,
        },
        UiLanguage::En => match field {
            AnkiField::Word => "Entry"@,
            AnkiField::Phonetic => "Phonetic"@,
            AnkiField::PartOfSpeech => "Part of Speech"@,
            AnkiField::EnglishDefinition => "Source Definition"@,
            AnkiField::ChineseDefinition => "Target Definition"@,
            AnkiField::Examples => "Examples"@,
            AnkiField::ExampleTranslations => "Example Translations"@,
            AnkiField::Source => "Source"@,
        },
    }
}

/// The name of a card field in the interface language.
pub fn anki_field_label(field: AnkiField, language: UiLanguage) -> (r: &'static str)
    ensures
        r@ == anki_field_label_spec(field, language),
{
    match language {
        UiLanguage::ZhHans => match field {
            AnkiField::Word => "词条",
            AnkiField::Phonetic => "音标",
            AnkiField::PartOfSpeech => "词性",
            AnkiField::EnglishDefinition => "源语言释义",
            AnkiField::ChineseDefinition => "目标语言释义",
            AnkiField::Examples => "例句",
            AnkiField::ExampleTranslations => "例句翻译",
            AnkiField::Source => "来源",
        },
        UiLanguage::En => match field {
            AnkiField::Word => "Entry",
            AnkiField::Phonetic => "Phonetic",
            AnkiField::PartOfSpeech => "Part of Speech",
            AnkiField::EnglishDefinition => "Source Definition",
            AnkiField::ChineseDefinition => "Target Definition",
            AnkiField::Examples => "Examples",
            AnkiField::ExampleTranslations => "Example Translations",
            AnkiField::Source => "Source",
        },
    }
}

/// The font files, on Windows, macOS and Linux, tried for phonetic symbols.
pub fn phonetic_font_candidates() -> (r: &'static [&'static str])
    ensures
        r@.len() == 10,
        r@[0]@ == "C:/Windows/Fonts/segoeui.ttf"@,
        r@[1]@ == "C:/Windows/Fonts/arial.ttf"@,
        r@[2]@ == "C:/Windows/Fonts/calibri.ttf"@,
        r@[3]@ == "C:/Windows/Fonts/times.ttf"@,
        r@[4]@ == "/System/Library/Fonts/Supplemental/Arial.ttf"@,
        r@[5]@ == "/System/Library/Fonts/Supplemental/Times New Roman.ttf"@,
        r@[6]@ == "/System/Library/Fonts/Supplemental/Arial Unicode.ttf"@,
        r@[7]@ == "/usr/share/fonts/truetype/dejavu/DejaVuSans.ttf"@,
        r@[8]@ == "/usr/share/fonts/truetype/noto/NotoSans-Regular.ttf"@,
        r@[9]@ == "/usr/share/fonts/truetype/liberation2/LiberationSans-Regular.ttf"@,
{
    &[
        "C:/Windows/Fonts/segoeui.ttf",
        "C:/Windows/Fonts/arial.ttf",
        "C:/Windows/Fonts/calibri.ttf",
        "C:/Windows/Fonts/times.ttf",
        "/System/Library/Fonts/Supplemental/Arial.ttf",
        "/System/Library/Fonts/Supplemental/Times New Roman.ttf",
        "/System/Library/Fonts/Supplemental/Arial Unicode.ttf",
        "/usr/share/fonts/truetype/dejavu/DejaVuSans.ttf",
        "/usr/share/fonts/truetype/noto/NotoSans-Regular.ttf",
        "/usr/share/fonts/truetype/liberation2/LiberationSans-Regular.ttf",
    ]
}

/// The font files, on Windows, macOS and Linux, tried for CJK text.
pub fn cjk_font_candidates() -> (r: &'static [&'static str])
    ensures
        r@.len() == 11,
        r@[0]@ == "C:/Windows/Fonts/msyh.ttc"@,
        r@[1]@ == "C:/Windows/Fonts/msyh.ttf"@,
        r@[2]@ == "C:/Windows/Fonts/simhei.ttf"@,
        r@[3]@ == "C:/Windows/Fonts/simsun.ttc"@,
        r@[4]@ == "/System/Library/Fonts/PingFang.ttc"@,
        r@[5]@ == "/System/Library/Fonts/STHeiti Light.ttc"@,
        r@[6]@ == "/System/Library/Fonts/STHeiti Medium.ttc"@,
        r@[7]@ == "/usr/share/fonts/opentype/noto/NotoSansCJK-Regular.ttc"@,
        r@[8]@ == "/usr/share/fonts/opentype/noto/NotoSansCJKsc-Regular.otf"@,
        r@[9]@ == "/usr/share/fonts/truetype/noto/NotoSansCJK-Regular.ttc"@,
        r@[10]@ == "/usr/share/fonts/truetype/wqy/wqy-microhei.ttc"@,
{
    &[
        "C:/Windows/Fonts/msyh.ttc",
        "C:/Windows/Fonts/msyh.ttf",
        "C:/Windows/Fonts/simhei.ttf",
        "C:/Windows/Fonts/simsun.ttc",
        "/System/Library/Fonts/PingFang.ttc",
        "/System/Library/Fonts/STHeiti Light.ttc",
        "/System/Library/Fonts/STHeiti Medium.ttc",
        "/usr/share/fonts/opentype/noto/NotoSansCJK-Regular.ttc",
        "/usr/share/fonts/opentype/noto/NotoSansCJKsc-Regular.otf",
        "/usr/share/fonts/truetype/noto/NotoSansCJK-Regular.ttc",
        "/usr/share/fonts/truetype/wqy/wqy-microhei.ttc",
    ]
}


/// The trimmed value, if it is not empty.
pub fn non_empty(value: String) -> (r: Option<String>)
    ensures
        r.deep_view() == non_empty_spec(trim_spec(value@)),
{
    non_empty_trimmed(value.as_str())
}

/// Whether two words are the same word: equal once lower-cased, the test by
/// which a word already in the list is found again.
pub open spec fn same_word(a: Seq<char>, b: Seq<char>) -> bool {
    lowercase(a) == lowercase(b)
}

/// Whether `k` is the first place in `entries` whose word is the same word as `word`.
pub open spec fn is_first_match(entries: Seq<WordEntry>, word: Seq<char>, k: int) -> bool {
    &&& 0 <= k < entries.len()
    &&& same_word(entries[k].word@, word)
    &&& forall|j: int| 0 <= j < k ==> !same_word(#[trigger] entries[j].word@, word)
}

/// Whether no entry's word is the same word as `word`.
pub open spec fn has_no_match(entries: Seq<WordEntry>, word: Seq<char>) -> bool {
    forall|j: int| 0 <= j < entries.len() ==> !same_word(#[trigger] entries[j].word@, word)
}

/// Whether `after` is `before` with `entry` in place of the first entry with
/// the same word, or at the end if there is none.
pub open spec fn upserted(before: Seq<WordEntry>, after: Seq<WordEntry>, entry: WordEntry) -> bool {
    &&& forall|k: int| is_first_match(before, entry.word@, k) ==> after == before.update(k, entry)
    &&& has_no_match(before, entry.word@) ==> after == before.push(entry)
}

/// Puts `entry` in place of the first entry with the same word (equal once
/// lower-cased), or at the end if there is none.
pub fn upsert_entry(entries: &mut Vec<WordEntry>, entry: WordEntry)
    ensures
        upserted(old(entries)@, final(entries)@, entry),
{
    let key = to_lowercase(entry.word.as_str());
    let n = entries.len();
    let mut i: usize = 0;
    while i < n
        invariant
            n == entries@.len(),
            entries@ == old(entries)@,
            key@ == lowercase(entry.word@),
            i <= n,
            forall|j: int| 0 <= j < i ==> !same_word(#[trigger] entries@[j].word@, entry.word@),
        decreases n - i,
    {
        let other = to_lowercase(entries[i].word.as_str());
        if str_eq(other.as_str(), key.as_str()) {
            assert(is_first_match(old(entries)@, entry.word@, i as int));
            assert forall|k: int| is_first_match(old(entries)@, entry.word@, k) implies k == i by {
                if k > i {
                    assert(!same_word(old(entries)@[i as int].word@, entry.word@));
                }
            }
            entries.set(i, entry);
            return;
        }
        i = i + 1;
    }
    entries.push(entry);
}

/// No two entries hold the same word.
pub open spec fn distinct_words(entries: Seq<WordEntry>) -> bool {
    forall|i: int, j: int|
        0 <= i < j < entries.len() ==> !same_word(
            #[trigger] entries[i].word@,
            #[trigger] entries[j].word@,
        )
}

/// Law: putting an entry in keeps one entry per word. If no two entries held
/// the same word before, none do after; the new entry is among them; and the
/// list grew by one exactly when its word was new.
pub proof fn lemma_upsert_one_per_word(before: Seq<WordEntry>, after: Seq<WordEntry>, entry: WordEntry)
    requires
        distinct_words(before),
        upserted(before, after, entry),
    ensures
        distinct_words(after),
        after.contains(entry),
        after.len() == before.len() + (if has_no_match(before, entry.word@) {
            1int
        } else {
            0int
        }),
{
    if has_no_match(before, entry.word@) {
        assert(after == before.push(entry));
        assert(after[before.len() as int] == entry);
        assert forall|i: int, j: int| 0 <= i < j < after.len() implies !same_word(
            #[trigger] after[i].word@,
            #[trigger] after[j].word@,
        ) by {
            if j == before.len() {
                assert(after[i] == before[i]);
                assert(!same_word(before[i].word@, entry.word@));
            } else {
                assert(after[i] == before[i] && after[j] == before[j]);
            }
        }
    } else {
        let k = choose|k: int| 0 <= k < before.len() && same_word(before[k].word@, entry.word@);
        assert(is_first_match(before, entry.word@, k)) by {
            assert forall|j: int| 0 <= j < k implies !same_word(
                #[trigger] before[j].word@,
                entry.word@,
            ) by {
                assert(!same_word(before[j].word@, before[k].word@));
            }
        }
        assert(after == before.update(k, entry));
        assert(after[k] == entry);
        assert forall|i: int, j: int| 0 <= i < j < after.len() implies !same_word(
            #[trigger] after[i].word@,
            #[trigger] after[j].word@,
        ) by {
            if i == k {
                assert(after[j] == before[j]);
                assert(!same_word(before[k].word@, before[j].word@));
            } else if j == k {
                assert(after[i] == before[i]);
                assert(!same_word(before[i].word@, before[k].word@));
            } else {
                assert(after[i] == before[i] && after[j] == before[j]);
            }
        }
    }
}

/// What the status table shows for one word.
#[derive(Debug, Clone)]
pub struct QueryLine {
    pub status: QueryStatus,
    pub source: String,
    pub error: Option<String>,
    pub ai_status: Option<String>,
    pub ai_reason: Option<String>,
    pub query_type: Option<String>,
}

impl QueryLine {
    /// The status line of a looked-up entry.
    pub open spec fn of_entry_spec(entry: WordEntry) -> QueryLine {
        QueryLine {
            status: entry.status,
            source: entry.source,
            error: entry.error,
            ai_status: entry.ai_status,
            ai_reason: entry.ai_reason,
            query_type: entry.query_type,
        }
    }

    /// The status line of a looked-up entry.
    pub fn of_entry(entry: &WordEntry) -> (r: QueryLine)
        ensures
            r == Self::of_entry_spec(*entry),
    {
        QueryLine {
            status: entry.status,
            source: entry.source.clone(),
            error: clone_opt(&entry.error),
            ai_status: clone_opt(&entry.ai_status),
            ai_reason: clone_opt(&entry.ai_reason),
            query_type: clone_opt(&entry.query_type),
        }
    }

    /// The status line of a word that was already known.
    pub fn skipped() -> (r: QueryLine)
        ensures
            r.status == QueryStatus::Skipped,
            r.source@ == "local-json"@,
            r.error is None,
            r.ai_status is None,
            r.ai_reason is None,
            r.query_type is None,
    {
        QueryLine {
            status: QueryStatus::Skipped,
            source: String::from_str("local-json"),
            error: None,
            ai_status: None,
            ai_reason: None,
            query_type: None,
        }
    }

    /// The reason column: the error, else the AI's reason, else nothing.
    pub open spec fn message_spec(self) -> Seq<char> {
        match self.error {
            Some(e) => e@,
            None => match self.ai_reason {
                Some(r) => r@,
                None => Seq::empty(),
            },
        }
    }

    /// The reason column: the error, else the AI's reason, else nothing.
    pub fn message(&self) -> (r: &str)
        ensures
            r@ == self.message_spec(),
    {
        match &self.error {
            Some(e) => e.as_str(),
            None => match &self.ai_reason {
                Some(r) => r.as_str(),
                None => {
                    proof {
                        reveal_strlit("");
                    }
                    ""
                },
            },
        }
    }
}

/// What the lookup task reports to the interface.
pub enum QueryMessage {
    Started { total: usize },
    Entry(WordEntry),
    Skipped(String),
    Done,
}

/// A word and its line in the status table.
#[derive(Debug, Clone)]
pub struct StatusRow {
    pub word: String,
    pub line: QueryLine,
}

/// The progress of a batch of lookups, as the interface shows it.
pub struct QueryState {
    pub is_querying: bool,
    pub progress_done: usize,
    pub progress_total: usize,
    pub statuses: Vec<StatusRow>,
}

/// The words of the status rows.
pub open spec fn status_words(rows: Seq<StatusRow>) -> Seq<Seq<char>> {
    rows.map_values(|r: StatusRow| r.word@)
}

/// The status rows with `word` set to `line`: the row of that word replaced,
/// or a new row at the end.
pub open spec fn set_status_spec(rows: Seq<StatusRow>, word: String, line: QueryLine) -> Seq<
    StatusRow,
> {
    if status_words(rows).contains(word@) {
        rows.update(status_words(rows).index_of(word@), StatusRow { word, line })
    } else {
        rows.push(StatusRow { word, line })
    }
}

impl QueryState {
    /// Each word has at most one status row.
    pub open spec fn wf(self) -> bool {
        status_words(self.statuses@).no_duplicates()
    }

    /// The state before any query.
    pub fn new() -> (r: QueryState)
        ensures
            r.wf(),
            !r.is_querying,
            r.progress_done == 0,
            r.progress_total == 0,
            r.statuses@.len() == 0,
    {
        let r = QueryState {
            is_querying: false,
            progress_done: 0,
            progress_total: 0,
            statuses: Vec::new(),
        };
        assert(status_words(r.statuses@) =~= Seq::<Seq<char>>::empty());
        r
    }

    /// Begins a query of `total` words: the query is running and no word is
    /// done yet; the status rows stay until the lookup task reports its start.
    pub fn start(&mut self, total: usize)
        requires
            old(self).wf(),
        ensures
            final(self).wf(),
            final(self).is_querying,
            final(self).progress_done == 0,
            final(self).progress_total == total,
            final(self).statuses@ == old(self).statuses@,
    {
        self.is_querying = true;
        self.progress_done = 0;
        self.progress_total = total;
    }

    /// Sets the status line of `word`, replacing its row if it has one.
    pub fn set_status(&mut self, word: String, line: QueryLine)
        requires
            old(self).wf(),
        ensures
            final(self).wf(),
            final(self).statuses@ == set_status_spec(old(self).statuses@, word, line),
            final(self).is_querying == old(self).is_querying,
            final(self).progress_done == old(self).progress_done,
            final(self).progress_total == old(self).progress_total,
    {
        let ghost ws = status_words(self.statuses@);
        let n = self.statuses.len();
        let mut i: usize = 0;
        while i < n
            invariant
                n == self.statuses@.len(),
                *self == *old(self),
                ws == status_words(self.statuses@),
                ws.no_duplicates(),
                i <= n,
                forall|j: int| 0 <= j < i ==> ws[j] != word@,
            decreases n - i,
        {
            if self.statuses[i].word == word {
                assert(ws[i as int] == word@);
                assert(ws.contains(word@));
                assert(ws.no_duplicates());
                assert(ws.index_of(word@) == i) by {
                    let k = ws.index_of(word@);
                    assert(0 <= k < ws.len() && ws[k] == word@);
                }
                self.statuses.set(i, StatusRow { word, line });
                assert(status_words(self.statuses@) =~= ws);
                assert(status_words(self.statuses@).no_duplicates());
                return;
            }
            i = i + 1;
        }
        assert(!ws.contains(word@));
        self.statuses.push(StatusRow { word, line });
        assert(status_words(self.statuses@) =~= ws.push(word@));
        assert(ws.no_duplicates());
        assert(status_words(self.statuses@).no_duplicates()) by {
            let w2 = ws.push(word@);
            assert forall|a: int, b: int| 0 <= a < w2.len() && 0 <= b < w2.len() && a != b implies w2[a]
                != w2[b] by {
                if a == ws.len() {
                    assert(w2[b] == ws[b]);
                } else if b == ws.len() {
                    assert(w2[a] == ws[a]);
                }
            }
        }
    }

    /// Takes in one report of the lookup task and says whether it was the last.
    /// A start sets the total and clears the progress; a looked-up entry
    /// counts one more, sets its word's status line and is put among the
    /// entries in place of the one with the same word; a skipped word counts
    /// one more and is marked skipped; the end stops the query.
    pub fn apply(&mut self, entries: &mut Vec<WordEntry>, message: QueryMessage) -> (finished: bool)
        requires
            old(self).wf(),
            (message is Entry || message is Skipped) ==> old(self).progress_done < usize::MAX,
        ensures
            final(self).wf(),
            finished == (message is Done),
            match message {
                QueryMessage::Started { total } => {
                    &&& final(self).progress_total == total
                    &&& final(self).progress_done == 0
                    &&& final(self).statuses@.len() == 0
                    &&& final(self).is_querying == old(self).is_querying
                    &&& final(entries)@ == old(entries)@
                },
                QueryMessage::Entry(entry) => {
                    &&& final(self).progress_done == old(self).progress_done + 1
                    &&& final(self).progress_total == old(self).progress_total
                    &&& final(self).is_querying == old(self).is_querying
                    &&& final(self).statuses@ == set_status_spec(
                        old(self).statuses@,
                        entry.word,
                        QueryLine::of_entry_spec(entry),
                    )
                    &&& upserted(old(entries)@, final(entries)@, entry)
                },
                QueryMessage::Skipped(word) => {
                    &&& final(self).progress_done == old(self).progress_done + 1
                    &&& final(self).progress_total == old(self).progress_total
                    &&& final(self).is_querying == old(self).is_querying
                    &&& exists|line: QueryLine|
                        {
                            &&& line.status == QueryStatus::Skipped
                            &&& line.source@ == "local-json"@
                            &&& line.error is None
                            &&& line.ai_status is None
                            &&& line.ai_reason is None
                            &&& line.query_type is None
                            &&& final(self).statuses@ == set_status_spec(old(self).statuses@, word, line)
                        }
                    &&& final(entries)@ == old(entries)@
                },
                QueryMessage::Done => {
                    &&& !final(self).is_querying
                    &&& final(self).progress_done == old(self).progress_done
                    &&& final(self).progress_total == old(self).progress_total
                    &&& final(self).statuses@ == old(self).statuses@
                    &&& final(entries)@ == old(entries)@
                },
            },
    {
        match message {
            QueryMessage::Started { total } => {
                self.progress_total = total;
                self.progress_done = 0;
                self.statuses = Vec::new();
                assert(status_words(self.statuses@) =~= Seq::<Seq<char>>::empty());
                false
            },
            QueryMessage::Entry(entry) => {
                self.progress_done = self.progress_done + 1;
                let line = QueryLine::of_entry(&entry);
                self.set_status(entry.word.clone(), line);
                upsert_entry(entries, entry);
                false
            },
            QueryMessage::Skipped(word) => {
                self.progress_done = self.progress_done + 1;
                let line = QueryLine::skipped();
                self.set_status(word, line);
                false
            },
            QueryMessage::Done => {
                self.is_querying = false;
                true
            },
        }
    }
}

/// The lower-cased word of an entry.
pub open spec fn lower_word() -> spec_fn(WordEntry) -> Seq<char> {
    |e: WordEntry| lowercase(e.word@)
}

/// The order in which the status table lists the rows: by word.
pub fn sorted_status_rows(state: &QueryState) -> (r: Vec<usize>)
    ensures
        r@.len() == state.statuses@.len(),
        r@.no_duplicates(),
        forall|i: int| 0 <= i < r@.len() ==> #[trigger] r@[i] < state.statuses@.len(),
        forall|i: int, j: int|
            0 <= i < j < r@.len() ==> lex_le(
                state.statuses@[r@[i] as int].word@,
                state.statuses@[r@[j] as int].word@,
            ),
{
    let rows = &state.statuses;
    let n = rows.len();
    let ghost w = rows@.map_values(|r: StatusRow| r.word@);
    let mut order: Vec<usize> = Vec::new();
    let mut k: usize = 0;
    while k < n
        invariant
            n == rows@.len(),
            rows@ == state.statuses@,
            w == rows@.map_values(|r: StatusRow| r.word@),
            k <= n,
            order@.len() == k,
            order@.no_duplicates(),
            forall|i: int| 0 <= i < order@.len() ==> #[trigger] order@[i] < k,
            forall|i: int, j: int|
                0 <= i < j < order@.len() ==> lex_le(w[order@[i] as int], w[order@[j] as int]),
        decreases n - k,
    {
        let mut p: usize = 0;
        while p < order.len() && lex_le_exec(rows[order[p]].word.as_str(), rows[k].word.as_str())
            invariant
                n == rows@.len(),
                rows@ == state.statuses@,
                w == rows@.map_values(|r: StatusRow| r.word@),
                k < n,
                order@.len() == k,
                forall|i: int| 0 <= i < order@.len() ==> #[trigger] order@[i] < k,
                p <= order@.len(),
                forall|i: int| 0 <= i < p ==> lex_le(#[trigger] w[order@[i] as int], w[k as int]),
            decreases order@.len() - p,
        {
            assert(w[order@[p as int] as int] == rows@[order@[p as int] as int].word@);
            p = p + 1;
        }
        let ghost old_order = order@;
        proof {
            if p < order@.len() {
                assert(w[order@[p as int] as int] == rows@[order@[p as int] as int].word@);
                assert(!lex_le(w[order@[p as int] as int], w[k as int]));
                lemma_lex_total(w[order@[p as int] as int], w[k as int]);
            }
        }
        order.insert(p, k);
        proof {
            assert(order@ == old_order.insert(p as int, k));
            assert forall|i: int| 0 <= i < order@.len() implies #[trigger] order@[i] < k + 1 by {
                if i < p {
                    assert(order@[i] == old_order[i]);
                } else if i > p {
                    assert(order@[i] == old_order[i - 1]);
                }
            }
            assert forall|i: int, j: int| 0 <= i < order@.len() && 0 <= j < order@.len() && i != j implies order@[i]
                != order@[j] by {
                if i != p && j != p {
                    let oi = if i < p { i } else { i - 1 };
                    let oj = if j < p { j } else { j - 1 };
                    assert(order@[i] == old_order[oi]);
                    assert(order@[j] == old_order[oj]);
                } else if i == p {
                    let oj = if j < p { j } else { j - 1 };
                    assert(order@[j] == old_order[oj]);
                } else {
                    let oi = if i < p { i } else { i - 1 };
                    assert(order@[i] == old_order[oi]);
                }
            }
            assert forall|i: int, j: int| 0 <= i < j < order@.len() implies lex_le(
                w[order@[i] as int],
                w[order@[j] as int],
            ) by {
                if j < p {
                    assert(order@[i] == old_order[i] && order@[j] == old_order[j]);
                } else if j == p {
                    assert(order@[i] == old_order[i]);
                } else if i == p {
                    assert(order@[j] == old_order[j - 1]);
                    if j - 1 > p {
                        assert(lex_le(w[old_order[p as int] as int], w[old_order[j - 1] as int]));
                        lemma_lex_transitive(
                            w[k as int],
                            w[old_order[p as int] as int],
                            w[old_order[j - 1] as int],
                        );
                    }
                } else if i < p {
                    assert(order@[i] == old_order[i] && order@[j] == old_order[j - 1]);
                    if i < j - 1 {
                    }
                } else {
                    assert(order@[i] == old_order[i - 1] && order@[j] == old_order[j - 1]);
                }
            }
        }
        k = k + 1;
    }
    proof {
        assert forall|i: int, j: int| 0 <= i < j < order@.len() implies lex_le(
            state.statuses@[order@[i] as int].word@,
            state.statuses@[order@[j] as int].word@,
        ) by {
            assert(w[order@[i] as int] == state.statuses@[order@[i] as int].word@);
            assert(w[order@[j] as int] == state.statuses@[order@[j] as int].word@);
        }
    }
    order
}

/// The keys under which the known entries are looked up: their words, lower-cased.
pub fn existing_keys(entries: &[WordEntry]) -> (r: Vec<String>)
    ensures
        r.deep_view() == entries@.map_values(lower_word()),
{
    let n = entries.len();
    let mut keys: Vec<String> = Vec::new();
    let mut i: usize = 0;
    while i < n
        invariant
            n == entries@.len(),
            i <= n,
            keys.deep_view() == entries@.take(i as int).map_values(lower_word()),
        decreases n - i,
    {
        let ghost before = keys.deep_view();
        let k = to_lowercase(entries[i].word.as_str());
        keys.push(k);
        assert(keys.deep_view() =~= before.push(lowercase(entries@[i as int].word@)));
        assert(keys.deep_view() =~= entries@.take(i + 1).map_values(lower_word()));
        i = i + 1;
    }
    assert(entries@.take(n as int) == entries@);
    keys
}

/// Whether a word is left out of a query: it is, when it is among the known
/// entries and a refresh is not forced.
pub fn should_skip(existing: &Vec<String>, word: &String, force_refresh: bool) -> (r: bool)
    ensures
        r == (!force_refresh && existing.deep_view().contains(word@)),
{
    !force_refresh && contains_string(existing, word)
}

/// The words that a query of `input` looks up, or, when the list holds none,
/// the message that asks for at least one, in `language`.
pub fn query_words(input: &str, language: UiLanguage) -> (r: Result<Vec<String>, &'static str>)
    ensures
        r is Ok <==> parse_words_spec(input@).len() > 0,
        r matches Ok(words) ==> words.deep_view() == parse_words_spec(input@),
        r matches Err(message) ==> message@ == tr_spec(language, UiText::InputEmpty),
{
    let words = parse_words(input);
    if words.len() == 0 {
        Err(tr(language, UiText::InputEmpty))
    } else {
        Ok(words)
    }
}

/// The number of lookups that run at once: the setting, but at least one.
pub fn effective_concurrency(concurrency: usize) -> (r: usize)
    ensures
        r == if concurrency > 1 { concurrency } else { 1 },
{
    if concurrency > 1 {
        concurrency
    } else {
        1
    }
}

/// How an AI status is coloured.
#[derive(Debug, Clone, Copy, PartialEq, Eq, Structural)]
pub enum StatusTone {
    Success,
    Failure,
    Other,
}

/// How an AI status is coloured: `"success"` well, `"invalid"`, `"failed"` and
/// `"failure"` badly, anything else neutrally, ignoring ASCII case.
pub open spec fn ai_status_tone_spec(status: Seq<char>) -> StatusTone {
    let s = ascii_lowercase_spec(status);
    if s == "success"@ {
        StatusTone::Success
    } else if s == "invalid"@ || s == "failed"@ || s == "failure"@ {
        StatusTone::Failure
    } else {
        StatusTone::Other
    }
}

/// How an AI status is coloured.
pub fn ai_status_tone(status: &str) -> (r: StatusTone)
    ensures
        r == ai_status_tone_spec(status@),
{
    let s = to_ascii_lowercase(status);
    if str_eq(s.as_str(), "success") {
        StatusTone::Success
    } else if str_eq(s.as_str(), "invalid") || str_eq(s.as_str(), "failed") || str_eq(
        s.as_str(),
        "failure",
    ) {
        StatusTone::Failure
    } else {
        StatusTone::Other
    }
}

/// The settings that a configuration file can hold.
#[derive(Debug, Clone, Default)]
pub struct FileConfig {
    pub ai_api_key: Option<String>,
    pub ai_model: Option<String>,
    pub ai_api_base_url: Option<String>,
    pub source_language: Option<String>,
    pub target_language: Option<String>,
    pub openai_api_key: Option<String>,
    pub openai_model: Option<String>,
    pub openai_api_base_url: Option<String>,
}

/// The settings that an AI dictionary source is built with.
#[derive(Debug, Clone)]
pub struct AiSettings {
    pub api_key: Option<String>,
    pub model: Option<String>,
    pub api_base_url: Option<String>,
    pub source_language: String,
    pub target_language: String,
}

/// The first of three optional values that is present.
pub open spec fn first_present(
    a: Option<Seq<char>>,
    b: Option<Seq<char>>,
    c: Option<Seq<char>>,
) -> Option<Seq<char>> {
    match a {
        Some(x) => Some(x),
        None => match b {
            Some(y) => Some(y),
            None => c,
        },
    }
}

/// A setting from the interface (trimmed, if not blank), else from the
/// configuration file's current key, else from its older key.
pub open spec fn setting_spec(ui: Seq<char>, file: Option<String>, legacy: Option<String>) -> Option<
    Seq<char>,
> {
    first_present(non_empty_spec(trim_spec(ui)), file.deep_view(), legacy.deep_view())
}

/// A language from the configuration file (trimmed, if not blank), else the
/// prompt name of the language chosen in the interface.
pub open spec fn language_spec(file: Option<String>, chosen: DictionaryLanguage) -> Seq<char> {
    match file {
        Some(v) => if trim_spec(v@).len() > 0 {
            trim_spec(v@)
        } else {
            chosen.prompt_name_spec()
        },
        None => chosen.prompt_name_spec(),
    }
}

fn or_else(a: Option<String>, b: Option<String>) -> (r: Option<String>)
    ensures
        r == (match a {
            Some(x) => Some(x),
            None => b,
        }),
{
    match a {
        Some(x) => Some(x),
        None => b,
    }
}

fn language_setting(file: &Option<String>, chosen: DictionaryLanguage) -> (r: String)
    ensures
        r@ == language_spec(*file, chosen),
{
    match file {
        Some(v) => {
            let t = trim(v.as_str());
            if t.is_empty() {
                String::from_str(chosen.prompt_name())
            } else {
                String::from_str(t)
            }
        },
        None => String::from_str(chosen.prompt_name()),
    }
}

/// The AI settings: each of key, model and base URL taken from the interface,
/// else the configuration file, else its older key; each language from the
/// configuration file, else the one chosen in the interface.
pub fn resolve_ai_settings(
    api_key: &str,
    model: &str,
    api_base_url: &str,
    file_config: FileConfig,
    source_language: DictionaryLanguage,
    target_language: DictionaryLanguage,
) -> (r: AiSettings)
    ensures
        r.api_key.deep_view() == setting_spec(api_key@, file_config.ai_api_key, file_config.openai_api_key),
        r.model.deep_view() == setting_spec(model@, file_config.ai_model, file_config.openai_model),
        r.api_base_url.deep_view() == setting_spec(
            api_base_url@,
            file_config.ai_api_base_url,
            file_config.openai_api_base_url,
        ),
        r.source_language@ == language_spec(file_config.source_language, source_language),
        r.target_language@ == language_spec(file_config.target_language, target_language),
{
    let source = language_setting(&file_config.source_language, source_language);
    let target = language_setting(&file_config.target_language, target_language);
    AiSettings {
        api_key: or_else(
            or_else(non_empty_trimmed(api_key), file_config.ai_api_key),
            file_config.openai_api_key,
        ),
        model: or_else(or_else(non_empty_trimmed(model), file_config.ai_model), file_config.openai_model),
        api_base_url: or_else(
            or_else(non_empty_trimmed(api_base_url), file_config.ai_api_base_url),
            file_config.openai_api_base_url,
        ),
        source_language: source,
        target_language: target,
    }
}

} // verus!
