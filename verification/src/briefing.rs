//! The working briefing: the prompt that asks the agent for it, naming
//! the configured tool servers, and the identity of its cached session.

use vstd::prelude::*;
use crate::config::strs_view;
use crate::mcp::{McpServerConfig, McpServerConfigV, named_configs_view};
use crate::mcp_adapter::{sort_texts, sorted_texts};
use crate::auth::signed_text;

verus! {

/// The opening of the briefing prompt, up to the number of days.
pub open spec fn prompt_head() -> Seq<char> {
    PREFIX@
}

/// The text between the number of days and the list of sources.
pub open spec fn prompt_days_tail() -> Seq<char> {
    MID@
}

/// The instructions after the list of sources.
pub open spec fn prompt_instructions() -> Seq<char> {
    SUFFIX@
}

/// The line that stands for an empty list of sources.
pub open spec fn no_sources_line() -> Seq<char> {
    "- Нет настроенных MCP-источников."@
}

/// The names of the configured servers that are enabled (a server is
/// enabled unless it says otherwise), in order.
pub open spec fn enabled_names(s: Seq<(Seq<char>, McpServerConfigV)>) -> Seq<Seq<char>>
    decreases s.len(),
{
    if s.len() == 0 {
        Seq::empty()
    } else {
        let r = enabled_names(s.drop_last());
        if s.last().1.enabled != Some(false) {
            r.push(s.last().0)
        } else {
            r
        }
    }
}

/// Source lines `- name`, joined with newlines.
pub open spec fn source_lines(names: Seq<Seq<char>>) -> Seq<char>
    decreases names.len(),
{
    if names.len() == 0 {
        Seq::empty()
    } else if names.len() == 1 {
        "- "@ + names[0]
    } else {
        source_lines(names.drop_last()) + "\n- "@ + names.last()
    }
}

/// The briefing prompt for the last `days` days: it lists the enabled
/// configured servers by name in ascending order (or says there are
/// none), then gives the instructions.
pub open spec fn briefing_prompt_of(servers: Seq<(Seq<char>, McpServerConfigV)>, days: i64) -> Seq<char> {
    let names = sorted_texts(enabled_names(servers));
    let list = if names.len() == 0 {
        no_sources_line()
    } else {
        source_lines(names)
    };
    prompt_head() + signed_text(days as int) + prompt_days_tail() + list + prompt_instructions()
}

/// The briefing prompt (see `briefing_prompt_of`).
pub fn briefing_prompt(servers: &Vec<(String, McpServerConfig)>, days: i64) -> (r: String)
    ensures
        r@ == briefing_prompt_of(named_configs_view(servers@), days),
{
    let ghost sv = named_configs_view(servers@);
    let mut names: Vec<String> = Vec::new();
    let mut i: usize = 0;
    while i < servers.len()
        invariant
            i <= servers@.len(),
            sv == named_configs_view(servers@),
            sv.len() == servers@.len(),
            strs_view(names@) == enabled_names(sv.take(i as int)),
        decreases servers@.len() - i,
    {
        assert(sv.take(i + 1).drop_last() =~= sv.take(i as int));
        assert(sv.take(i + 1).last() == sv[i as int]);
        let enabled = match servers[i].1.enabled {
            Some(b) => b,
            None => true,
        };
        if enabled {
            let ghost before = strs_view(names@);
            names.push(servers[i].0.as_str().to_owned());
            assert(strs_view(names@) =~= before.push(sv[i as int].0));
        }
        i = i + 1;
    }
    assert(sv.take(servers@.len() as int) =~= sv);
    let sorted = sort_texts(&names);
    let ghost sn = strs_view(sorted@);
    let mut list = String::new();
    if sorted.len() == 0 {
        list = "- Нет настроенных MCP-источников.".to_owned();
    } else {
        let mut k: usize = 0;
        while k < sorted.len()
            invariant
                k <= sorted@.len(),
                sn == strs_view(sorted@),
                list@ == source_lines(sn.take(k as int)),
            decreases sorted@.len() - k,
        {
            assert(sn.take(k + 1).drop_last() =~= sn.take(k as int));
            if k == 0 {
                list = "- ".to_owned().concat(sorted[k].as_str());
            } else {
                list = list.concat("\n- ").concat(sorted[k].as_str());
            }
            proof {
                reveal_strlit("- ");
                reveal_strlit("\n- ");
            }
            assert(list@ =~= source_lines(sn.take(k + 1)));
            k = k + 1;
        }
        assert(sn.take(sorted@.len() as int) =~= sn);
    }
    PREFIX.to_owned().concat(crate::auth::signed_decimal_i64(days).as_str()).concat(MID).concat(list.as_str()).concat(SUFFIX)
}

/// The session id under which a profile's briefing is cached.
pub fn briefing_session_id(profile: Option<&str>) -> (r: String)
    ensures
        r@ == "smart_briefing:"@ + (match profile {
            Some(p) => p@,
            None => "default"@,
        }),
{
    "smart_briefing:".to_owned().concat(
        match profile {
            Some(p) => p,
            None => "default",
        },
    )
}

/// The opening of the briefing prompt.
pub const PREFIX: &'static str = "Ты — персональный ИИ-ассистент руководителя. Подготовь «Рабочий брифинг» за последние ";

/// The text between the number of days and the list of sources.
pub const MID: &'static str = " дней.\n\nНастроенные MCP-источники:\n";

/// The instructions of the briefing prompt.
pub const SUFFIX: &'static str = "\n\nШАГ 1. Собери сырые данные только из перечисленных выше источников. Используй только инструменты, которые есть в твоём реестре: если инструмента или источника нет в реестре, он недоступен. Не пытайся вызывать несуществующие инструменты и не повторяй вызовы, вернувшие ошибку «not found». Проанализируй также доступные локальные задачи и недавние чат-сессии.\n\nШАГ 2. Перекрёстный анализ задач и обсуждений:\n- Если задача выполнена/обсуждена в чате, но статус в трекере не обновлён → предложи обновить статус.\n- Если в задаче есть статус, а в подключённом источнике вопрос не решён и нет ответа → предложи готовый краткий ответ.\n\nШАГ 3. Сформируй брифинг СТРОГО по структуре ниже. Краткие выжимки, без длинных полотен.\n\n# Рабочий брифинг\n**[День недели, Дата]**\n\n📊 **Статистика дня:** Встреч: [N] | Задач в работе: [N] | Просрочено/Без движения: [N]\n\n## ДАННЫЕ ИЗ ПОДКЛЮЧЁННЫХ ИСТОЧНИКОВ\n* [Источник]: [краткая выжимка только из доступных данных].\n\n## БЛОКЕРЫ ЗАДАЧ\n* [ID задачи] — [Название задачи]. Причина блокировки: [Описание]. Кто блокирует: [Имя].\n\n## БЕЗ ДВИЖЕНИЯ\n* [ID задачи] — [Название задачи] (Просрочено на [X] дней / Без движения [X] дней).\n\n## ЗАДАЧИ — СВЯЗЬ С ОБСУЖДЕНИЯМИ\n* [ID задачи]: статус [статус]. Обсуждалась в чате: да/нет.\n  - Если выполнена в чате, но статус не обновлён → предложи обновить.\n  - Если ждёт ответа, но ответа не было → предложи, что ответить.\n\n## ПРЕДЛОЖЕНИЯ ОТВЕТОВ\n* На [запрос из подключённого источника]: [краткий готовый ответ в 1–2 предложениях].\n\n## ОБЩАЯ ГОТОВНОСТЬ\n* Выполнено: N. В работе: M. Требует внимания: K.\n\nПРАВИЛА ФОРМАТИРОВАНИЯ:\n1. Строгий деловой стиль, на русском языке.\n2. Выделяй **жирным** имена, статусы («Ждёт вас», «Мяч у вас», «БЕЗ ДВИЖЕНИЯ») и критичные проблемы.\n3. Если в блоке нет данных — выводи: «Нет критичных обновлений».\n4. Если источник недоступен (нет подключения, нет MCP, нет данных) — честно укажи «Источник недоступен: [причина]». НЕ ВЫДУМЫВАЙ данные.\n5. Указывай ID задач (например, PRX-123, AD-62485).\n6. Предложения ответов — краткие, готовые к отправке.";

/// A generated briefing as the desktop shows it.
#[derive(Debug, Clone)]
pub struct BriefingResult {
    pub session_id: String,
    pub source: String,
    pub started_at: i64,
    pub title: String,
    pub preview: String,
    pub formatted: String,
}

/// The most recent cached briefing of a profile.
#[derive(Debug, Clone)]
pub struct CachedBriefing {
    pub session_id: String,
    pub title: String,
    pub text: String,
    /// When the briefing was generated, in seconds since the epoch.
    pub generated_at: i64,
    /// True when the briefing is older than the allowed age.
    pub stale: bool,
}

/// The cached briefing of a profile, from the stored session row (title,
/// preview, start time) when there is one: without a row the texts are
/// empty and the time is 0; the briefing is stale when more than
/// `max_age_secs` seconds passed between its time and `now`.
pub fn get_cached_briefing(
    profile: Option<&str>,
    row: Option<(String, String, i64)>,
    now: i64,
    max_age_secs: i64,
) -> (r: CachedBriefing)
    ensures
        r.session_id@ == "smart_briefing:"@ + (match profile {
            Some(p) => p@,
            None => "default"@,
        }),
        match row {
            Some(t) => r.title@ == t.0@ && r.text@ == t.1@ && r.generated_at == t.2,
            None => r.title@.len() == 0 && r.text@.len() == 0 && r.generated_at == 0,
        },
        r.stale == (now - r.generated_at > max_age_secs),
{
    let session_id = briefing_session_id(profile);
    let (title, text, generated_at) = match row {
        Some(t) => t,
        None => (String::new(), String::new(), 0i64),
    };
    let age: i128 = now as i128 - generated_at as i128;
    CachedBriefing { session_id, title, text, generated_at, stale: age > max_age_secs as i128 }
}

} // verus!
