//! Detection of browsers that are driven through the Chrome DevTools
//! Protocol: the script that the client runs, its injection into a page,
//! and what the server does with the report that the script sends.

use crate::admin::{EventLogEntry, EventType, EventView};
use crate::ban::{ban_key_of, escalate, escalated, same_ledger, same_ledger_but};
use crate::config::Config;
use crate::maze::default_site;
use crate::metrics::{counted, increment, metric_key_of, MetricName};
use crate::record::record_bytes;
use crate::store::KeyValueStore;
use crate::text::{chars_of, contains_text, find_text, push_all, replace_all, replaced, text_of};
use vstd::prelude::*;

verus! {

/// The script that looks for automation in the client. It defines
/// `window._checkCDPAutomation`, which resolves to what it found, its
/// score and the names of the checks that fired.
pub const CDP_DETECTION_JS: &'static str = r#"
(function() {
    'use strict';
    
    // CDP Detection - checks for Runtime.Enable leak
    // When CDP is active with Runtime.Enable, console methods trigger
    // Runtime.consoleAPICalled events with detectable side effects
    
    var cdpDetected = false;
    var detectionComplete = false;
    
    function detectCDP() {
        return new Promise(function(resolve) {
            // Method 1: Error stack trace analysis
            // CDP Runtime.Enable modifies how error stacks are generated
            try {
                var err = new Error();
                var stack = err.stack || '';
                
                // Check for CDP-specific patterns in stack traces
                if (stack.indexOf('puppeteer') !== -1 || 
                    stack.indexOf('playwright') !== -1 ||
                    stack.indexOf('__puppeteer_evaluation_script__') !== -1) {
                    resolve(true);
                    return;
                }
            } catch(e) {}
            
            // Method 2: Console timing analysis
            // When CDP is listening, console calls have slightly different timing
            var timings = [];
            var iterations = 5;
            
            function measureConsole(i) {
                if (i >= iterations) {
                    // Analyze timing variance
                    var sum = 0;
                    for (var j = 0; j < timings.length; j++) {
                        sum += timings[j];
                    }
                    var avg = sum / timings.length;
                    
                    // CDP typically shows higher variance in console timing
                    var variance = 0;
                    for (var k = 0; k < timings.length; k++) {
                        variance += Math.pow(timings[k] - avg, 2);
                    }
                    variance = variance / timings.length;
                    
                    // Threshold determined by testing - CDP usually shows variance > 0.5
                    // This is a soft signal, combined with other checks
                    var timingAnomaly = variance > 0.8;
                    resolve(timingAnomaly);
                    return;
                }
                
                var start = performance.now();
                console.debug(''); // Minimal console call
                var end = performance.now();
                timings.push(end - start);
                
                // Use setTimeout to avoid blocking
                setTimeout(function() { measureConsole(i + 1); }, 0);
            }
            
            measureConsole(0);
        });
    }
    
    // Method 3: WebDriver property check (classic but still useful)
    function checkWebDriver() {
        return navigator.webdriver === true;
    }
    
    // Method 4: Check for automation-related properties
    function checkAutomationProperties() {
        // Properties typically set by automation tools
        var suspicious = [
            'callPhantom',
            '_phantom',
            '__nightmare',
            '_selenium',
            'callSelenium',
            '_Selenium_IDE_Recorder',
            '__webdriver_evaluate',
            '__selenium_evaluate',
            '__webdriver_script_function',
            '__webdriver_script_func',
            '__webdriver_script_fn',
            '__fxdriver_evaluate',
            '__driver_unwrapped',
            '__webdriver_unwrapped',
            '__driver_evaluate',
            '__selenium_unwrapped',
            '__fxdriver_unwrapped',
            'domAutomation',
            'domAutomationController'
        ];
        
        for (var i = 0; i < suspicious.length; i++) {
            if (window[suspicious[i]] !== undefined) {
                return true;
            }
        }
        
        // Check document properties
        if (document.documentElement) {
            var attrs = document.documentElement.getAttributeNames();
            for (var j = 0; j < attrs.length; j++) {
                if (attrs[j].indexOf('webdriver') !== -1 ||
                    attrs[j].indexOf('selenium') !== -1 ||
                    attrs[j].indexOf('driver') !== -1) {
                    return true;
                }
            }
        }
        
        return false;
    }
    
    // Method 5: Chrome object consistency check
    function checkChromeObject() {
        // In headless Chrome, window.chrome exists but may have inconsistencies
        if (window.chrome) {
            // Check for missing runtime (suspicious in real Chrome)
            if (!window.chrome.runtime) {
                // Could be legitimate old Chrome, weight accordingly
                return 0.3;
            }
            // Check for csi and loadTimes (missing in automation)
            if (!window.chrome.csi || !window.chrome.loadTimes) {
                return 0.2;
            }
        } else if (/Chrome/.test(navigator.userAgent)) {
            // Claims to be Chrome but no chrome object
            return 0.8;
        }
        return 0;
    }
    
    // Method 6: Plugin/MimeType array check
    function checkPlugins() {
        // Headless browsers typically have no plugins
        if (navigator.plugins && navigator.plugins.length === 0) {
            // Weight based on claimed browser
            if (/Chrome|Firefox/.test(navigator.userAgent)) {
                return 0.4; // Suspicious but not definitive
            }
        }
        
        // Check if plugins is a real PluginArray
        try {
            if (navigator.plugins && 
                Object.prototype.toString.call(navigator.plugins) !== '[object PluginArray]') {
                return 0.6;
            }
        } catch(e) {
            return 0.3;
        }
        
        return 0;
    }
    
    // Combined detection with weighted scoring
    window._checkCDPAutomation = function() {
        return new Promise(function(resolve) {
            if (detectionComplete) {
                resolve({ detected: cdpDetected, score: window._cdpScore || 0 });
                return;
            }
            
            var score = 0;
            var checks = [];
            
            // Immediate checks
            if (checkWebDriver()) {
                score += 1.0; // Definitive
                checks.push('webdriver');
            }
            
            if (checkAutomationProperties()) {
                score += 0.9;
                checks.push('automation_props');
            }
            
            score += checkChromeObject();
            if (checkChromeObject() > 0) checks.push('chrome_obj');
            
            score += checkPlugins();
            if (checkPlugins() > 0) checks.push('plugins');
            
            // Async CDP detection
            detectCDP().then(function(cdpResult) {
                if (cdpResult) {
                    score += 0.7;
                    checks.push('cdp_timing');
                }
                
                cdpDetected = score >= 0.8;
                window._cdpScore = score;
                window._cdpChecks = checks;
                detectionComplete = true;
                
                resolve({
                    detected: cdpDetected,
                    score: score,
                    checks: checks
                });
            });
        });
    };
    
    // Auto-run detection on load
    if (document.readyState === 'complete') {
        window._checkCDPAutomation();
    } else {
        window.addEventListener('load', function() {
            window._checkCDPAutomation();
        });
    }
})();
"#;

/// What stands before the endpoint in the report script.
pub const CDP_REPORT_HEAD: &'static str = r#"
<script>
(function() {
    window._checkCDPAutomation().then(function(result) {
        if (result.detected) {
            // Report automation detection to server
            fetch('"#;

/// What stands after the endpoint in the report script.
pub const CDP_REPORT_TAIL: &'static str = r#"', {
                method: 'POST',
                headers: { 'Content-Type': 'application/json' },
                body: JSON.stringify({
                    cdp_detected: true,
                    score: result.score,
                    checks: result.checks
                })
            });
        }
    });
})();
</script>
"#;

/// The detection script.
pub fn get_cdp_detection_script() -> (script: &'static str)
    ensures
        script@ == CDP_DETECTION_JS@,
{
    CDP_DETECTION_JS
}

/// The script element that sends what the detection found to `endpoint`.
pub open spec fn report_script_of(endpoint: Seq<char>) -> Seq<char> {
    CDP_REPORT_HEAD@ + endpoint + CDP_REPORT_TAIL@
}

/// The script element that posts what the detection found to
/// `report_endpoint`, where it found automation.
pub fn get_cdp_report_script(report_endpoint: &str) -> (script: String)
    ensures
        script@ == report_script_of(report_endpoint@),
{
    let mut script = String::from_str(CDP_REPORT_HEAD);
    script.append(report_endpoint);
    script.append(CDP_REPORT_TAIL);
    script
}

/// `</head>`
pub open spec fn head_end() -> Seq<char> {
    seq!['<', '/', 'h', 'e', 'a', 'd', '>']
}

/// `</body>`
pub open spec fn body_end() -> Seq<char> {
    seq!['<', '/', 'b', 'o', 'd', 'y', '>']
}

/// What is put into a page: the detection script in a script element,
/// then the report script where there is an endpoint.
pub open spec fn injection_of(endpoint: Option<Seq<char>>) -> Seq<char> {
    seq!['<', 's', 'c', 'r', 'i', 'p', 't', '>'] + CDP_DETECTION_JS@ + seq![
        '<',
        '/',
        's',
        'c',
        'r',
        'i',
        'p',
        't',
        '>',
    ] + match endpoint {
        Some(e) => report_script_of(e),
        None => Seq::empty(),
    }
}

/// The page `html` with `payload` put before every `</head>`; where there
/// is none, before every `</body>`; where there is none either, at the end.
pub open spec fn injected(html: Seq<char>, payload: Seq<char>) -> Seq<char> {
    if contains_text(html, head_end()) {
        replaced(html, head_end(), payload + head_end())
    } else if contains_text(html, body_end()) {
        replaced(html, body_end(), payload + body_end())
    } else {
        html + payload
    }
}

/// The page `html` with the detection script, and the report script where
/// `report_endpoint` is given, put before `</head>`, else before `</body>`,
/// else at the end.
pub fn inject_cdp_detection(html: &str, report_endpoint: Option<&str>) -> (page: String)
    ensures
        page@ == injected(
            html@,
            injection_of(
                match report_endpoint {
                    Some(e) => Some(e@),
                    None => None,
                },
            ),
        ),
{
    let mut payload: Vec<char> = vec!['<', 's', 'c', 'r', 'i', 'p', 't', '>'];
    let js = chars_of(CDP_DETECTION_JS);
    push_all(&mut payload, js.as_slice());
    let close: Vec<char> = vec!['<', '/', 's', 'c', 'r', 'i', 'p', 't', '>'];
    push_all(&mut payload, close.as_slice());
    match report_endpoint {
        Some(endpoint) => {
            let report = get_cdp_report_script(endpoint);
            let report_chars = chars_of(report.as_str());
            push_all(&mut payload, report_chars.as_slice());
        },
        None => {
            assert(payload@ + Seq::<char>::empty() =~= payload@);
        },
    }
    assert(payload@ =~= injection_of(
        match report_endpoint {
            Some(e) => Some(e@),
            None => None,
        },
    ));
    let page = chars_of(html);
    let head: Vec<char> = vec!['<', '/', 'h', 'e', 'a', 'd', '>'];
    let body: Vec<char> = vec!['<', '/', 'b', 'o', 'd', 'y', '>'];
    assert(head@ =~= head_end());
    assert(body@ =~= body_end());
    if find_text(page.as_slice(), head.as_slice(), 0).is_some() {
        let mut with: Vec<char> = Vec::new();
        push_all(&mut with, payload.as_slice());
        push_all(&mut with, head.as_slice());
        let out = replace_all(page.as_slice(), head.as_slice(), with.as_slice());
        text_of(out.as_slice())
    } else if find_text(page.as_slice(), body.as_slice(), 0).is_some() {
        let mut with: Vec<char> = Vec::new();
        push_all(&mut with, payload.as_slice());
        push_all(&mut with, body.as_slice());
        let out = replace_all(page.as_slice(), body.as_slice(), with.as_slice());
        text_of(out.as_slice())
    } else {
        let mut out = page;
        push_all(&mut out, payload.as_slice());
        text_of(out.as_slice())
    }
}

} // verus!

verus! {

/// What the detection script reports.
#[derive(Debug, Clone)]
pub struct CdpReport {
    /// Whether the script holds the client for automated.
    pub cdp_detected: bool,
    /// The score that the script gave: the bits of an IEEE 754 single.
    pub score: u32,
    /// The names of the checks that fired.
    pub checks: Vec<String>,
}

/// Whether `bits` is a single that is no number.
pub open spec fn single_is_nan(bits: u32) -> bool {
    bits % 0x8000_0000 > 0x7f80_0000
}

/// The place of the single `bits` in the order of the singles that are
/// numbers: the magnitude, negative where the sign bit is set. Both zeros
/// have the place zero.
pub open spec fn single_rank(bits: u32) -> int {
    if bits >= 0x8000_0000 {
        0x8000_0000 - bits
    } else {
        bits as int
    }
}

/// Whether the single `a` is greater than or equal to the single `b`, as
/// `>=` on `f32` has it: never where one of them is no number.
pub open spec fn single_ge(a: u32, b: u32) -> bool {
    !single_is_nan(a) && !single_is_nan(b) && single_rank(a) >= single_rank(b)
}

/// Whether the score `score` reaches the threshold `threshold`, both
/// given as the bits of singles.
pub fn score_reaches(score: u32, threshold: u32) -> (r: bool)
    ensures
        r == single_ge(score, threshold),
{
    let a: u32 = score % 0x8000_0000;
    let b: u32 = threshold % 0x8000_0000;
    if a > 0x7f80_0000 || b > 0x7f80_0000 {
        return false;
    }
    if score >= 0x8000_0000 {
        if threshold >= 0x8000_0000 {
            a <= b
        } else {
            a == 0 && b == 0
        }
    } else {
        if threshold >= 0x8000_0000 {
            true
        } else {
            a >= b
        }
    }
}

/// What became of a report.
#[derive(Debug, Clone, Copy, PartialEq, Eq, Structural)]
pub enum CdpOutcome {
    /// The site does not take reports.
    Disabled,
    /// The body was no report.
    Malformed,
    /// The report was counted.
    Received,
    /// The report was counted and a ban was due.
    Banned,
}

impl CdpOutcome {
    /// The status of the reply.
    pub open spec fn status_of(self) -> u16 {
        if self == CdpOutcome::Malformed {
            400
        } else {
            200
        }
    }

    /// The status of the reply.
    pub fn status(self) -> (code: u16)
        ensures
            code == self.status_of(),
    {
        match self {
            CdpOutcome::Malformed => 400,
            _ => 200,
        }
    }

    /// The text of the reply.
    pub fn message(self) -> (text: &'static str)
        ensures
            text@ == match self {
                CdpOutcome::Disabled => "CDP detection disabled"@,
                CdpOutcome::Malformed => "Invalid CDP report format"@,
                CdpOutcome::Received => "Report received"@,
                CdpOutcome::Banned => "Automation detected - banned"@,
            },
    {
        match self {
            CdpOutcome::Disabled => "CDP detection disabled",
            CdpOutcome::Malformed => "Invalid CDP report format",
            CdpOutcome::Received => "Report received",
            CdpOutcome::Banned => "Automation detected - banned",
        }
    }
}

/// Whether a report with the score `score` leads to a ban: the site bans
/// on reports, and the score reaches the threshold. What the script itself
/// concluded does not count.
pub open spec fn cdp_ban_due(cfg: Config, score: u32) -> bool {
    cfg.cdp_auto_ban && single_ge(score, cfg.cdp_detection_threshold)
}

/// What becomes of a report with the score `score`, or of a body that
/// is no report.
pub open spec fn cdp_outcome_of(cfg: Config, score: Option<u32>) -> CdpOutcome {
    if !cfg.cdp_detection_enabled {
        CdpOutcome::Disabled
    } else {
        match score {
            None => CdpOutcome::Malformed,
            Some(s) => if cdp_ban_due(cfg, s) {
                CdpOutcome::Banned
            } else {
                CdpOutcome::Received
            },
        }
    }
}

/// `cdp_automation`: the reason of a ban on a report.
pub open spec fn automation_reason() -> Seq<char> {
    seq!['c', 'd', 'p', '_', 'a', 'u', 't', 'o', 'm', 'a', 't', 'i', 'o', 'n']
}

/// The store `m` after a report from `ip` at time `now`: a report that
/// the site takes is counted, and the address is banned where a ban is
/// due.
pub open spec fn cdp_store_after(
    m: Map<Seq<char>, Seq<u8>>,
    cfg: Config,
    ip: Seq<char>,
    score: Option<u32>,
    now: u64,
) -> Map<Seq<char>, Seq<u8>> {
    match cdp_outcome_of(cfg, score) {
        CdpOutcome::Disabled => m,
        CdpOutcome::Malformed => m,
        CdpOutcome::Received => counted(m, metric_key_of(MetricName::CdpDetections, None)),
        CdpOutcome::Banned => counted(
            escalated(
                counted(m, metric_key_of(MetricName::CdpDetections, None)),
                default_site(),
                ip,
                automation_reason(),
                cfg.ban_durations.duration_of("cdp"@),
                now,
            ),
            metric_key_of(MetricName::BansTotal, Some(automation_reason())),
        ),
    }
}

/// The names in `names`, with commas between.
pub open spec fn joined(names: Seq<String>) -> Seq<char>
    decreases names.len(),
{
    if names.len() == 0 {
        Seq::empty()
    } else if names.len() == 1 {
        names[0]@
    } else {
        joined(names.drop_last()) + seq![','] + names.last()@
    }
}

/// The names in `names`, with commas between.
pub fn join_names(names: &[String]) -> (r: Vec<char>)
    ensures
        r@ == joined(names@),
{
    let mut out: Vec<char> = Vec::new();
    let mut i: usize = 0;
    assert(names@.take(0) =~= Seq::<String>::empty());
    while i < names.len()
        invariant
            i <= names.len(),
            out@ == joined(names@.take(i as int)),
        decreases names.len() - i,
    {
        let ghost before = names@.take(i as int);
        let ghost next = names@.take(i + 1);
        assert(next.drop_last() =~= before);
        assert(next.last() == names@[i as int]);
        if i > 0 {
            out.push(',');
        }
        let name = chars_of(names[i].as_str());
        push_all(&mut out, name.as_slice());
        assert(out@ =~= joined(next)) by {
            if i == 0 {
                assert(joined(before) =~= Seq::<char>::empty());
            }
        }
        i = i + 1;
    }
    assert(names@.take(names.len() as int) =~= names@);
    out
}

/// The event that a counted report leaves. `score_label` is the score as
/// the log shows it.
pub open spec fn cdp_report_event(
    ip: Seq<char>,
    score_label: Seq<char>,
    checks: Seq<String>,
    now: u64,
) -> EventView {
    EventView {
        ts: now,
        event: EventType::Challenge,
        ip: Some(ip),
        reason: Some("cdp_detected:score="@ + score_label),
        outcome: Some("checks:"@ + joined(checks)),
        admin: None,
    }
}

/// The event that a ban on a report leaves.
pub open spec fn cdp_ban_event(ip: Seq<char>, score_label: Seq<char>, now: u64) -> EventView {
    EventView {
        ts: now,
        event: EventType::Ban,
        ip: Some(ip),
        reason: Some(automation_reason()),
        outcome: Some("banned:score="@ + score_label),
        admin: None,
    }
}

/// What a report led to.
pub struct CdpReply {
    pub outcome: CdpOutcome,
    /// The events to log, in order.
    pub events: Vec<EventLogEntry>,
}

/// The score of a report, if there is a report.
pub open spec fn score_of(report: Option<&CdpReport>) -> Option<u32> {
    match report {
        Some(r) => Some(r.score),
        None => None,
    }
}

/// What becomes of a report with the score `score`, or of a body that
/// is no report.
pub fn judge_report(cfg: &Config, score: Option<u32>) -> (outcome: CdpOutcome)
    ensures
        outcome == cdp_outcome_of(*cfg, score),
{
    if !cfg.cdp_detection_enabled {
        return CdpOutcome::Disabled;
    }
    match score {
        None => CdpOutcome::Malformed,
        Some(s) => if cfg.cdp_auto_ban && score_reaches(s, cfg.cdp_detection_threshold) {
            CdpOutcome::Banned
        } else {
            CdpOutcome::Received
        },
    }
}

/// Takes the report that `ip` sent at time `now`; `report` is `None` where
/// the body was no report, and `score_label` is the score as the log
/// shows it.
///
/// A site that does not take reports answers without looking at the
/// body. A report that it takes is logged and counted; where its score
/// reaches the threshold and the site bans on reports, the address is
/// banned, the ban counted and logged.
pub fn handle_cdp_report_at<S: KeyValueStore>(
    store: &mut S,
    cfg: &Config,
    ip: &str,
    report: Option<&CdpReport>,
    score_label: &str,
    now: u64,
) -> (reply: CdpReply)
    ensures
        final(store).dependable() == old(store).dependable(),
        reply.outcome == cdp_outcome_of(*cfg, score_of(report)),
        reply.outcome == CdpOutcome::Disabled || reply.outcome == CdpOutcome::Malformed
            ==> final(store).contents() == old(store).contents() && reply.events@.len() == 0,
        old(store).dependable() ==> final(store).contents() == cdp_store_after(
            old(store).contents(),
            *cfg,
            ip@,
            score_of(report),
            now,
        ),
        reply.outcome == CdpOutcome::Received ==> reply.events@.len() == 1,
        reply.outcome == CdpOutcome::Banned ==> reply.events@.len() == 2 && reply.events@[1]@
            == cdp_ban_event(ip@, score_label@, now),
        (reply.outcome == CdpOutcome::Received || reply.outcome == CdpOutcome::Banned)
            ==> report is Some && reply.events@[0]@ == cdp_report_event(
            ip@,
            score_label@,
            report->0.checks@,
            now,
        ),
{
    let mut events: Vec<EventLogEntry> = Vec::new();
    let score = match report {
        Some(r) => Some(r.score),
        None => None,
    };
    let outcome = judge_report(cfg, score);
    let found = match report {
        Some(r) => r,
        None => {
            return CdpReply { outcome, events };
        },
    };
    if outcome == CdpOutcome::Disabled {
        return CdpReply { outcome, events };
    }
    let mut reason = chars_of("cdp_detected:score=");
    let label = chars_of(score_label);
    push_all(&mut reason, label.as_slice());
    let mut checks = chars_of("checks:");
    let names = join_names(found.checks.as_slice());
    push_all(&mut checks, names.as_slice());
    events.push(
        EventLogEntry {
            ts: now,
            event: EventType::Challenge,
            ip: Some(ip.to_owned()),
            reason: Some(text_of(reason.as_slice())),
            outcome: Some(text_of(checks.as_slice())),
            admin: None,
        },
    );
    increment(store, MetricName::CdpDetections, None);
    if outcome == CdpOutcome::Banned {
        proof {
            reveal_strlit("default");
            reveal_strlit("cdp_automation");
            assert("default"@ =~= default_site());
            assert("cdp_automation"@ =~= automation_reason());
        }
        escalate(store, "default", ip, "cdp_automation", cfg.get_ban_duration("cdp"), now);
        increment(store, MetricName::BansTotal, Some("cdp_automation"));
        let mut banned = chars_of("banned:score=");
        push_all(&mut banned, label.as_slice());
        events.push(
            EventLogEntry {
                ts: now,
                event: EventType::Ban,
                ip: Some(ip.to_owned()),
                reason: Some(String::from_str("cdp_automation")),
                outcome: Some(text_of(banned.as_slice())),
                admin: None,
            },
        );
    }
    CdpReply { outcome, events }
}

/// A report whose score is below the threshold writes no ban record,
/// whatever the script concluded and whatever the settings are.
pub proof fn law_report_below_threshold(
    m: Map<Seq<char>, Seq<u8>>,
    cfg: Config,
    ip: Seq<char>,
    score: u32,
    now: u64,
)
    requires
        !single_ge(score, cfg.cdp_detection_threshold),
    ensures
        same_ledger(m, cdp_store_after(m, cfg, ip, Some(score), now)),
{
    assert forall|s: Seq<char>, i: Seq<char>| #[trigger]
        ban_key_of(s, i) != metric_key_of(MetricName::CdpDetections, None) by {
        crate::keys::lemma_ban_key_apart(s, i, s, i, MetricName::CdpDetections, None);
    }
}

/// A report whose score reaches the threshold, at a site that takes
/// reports and bans on them, writes one ban record: that of the reporting
/// address, until the ban duration has passed. Every other record stays.
pub proof fn law_report_bans_once(
    m: Map<Seq<char>, Seq<u8>>,
    cfg: Config,
    ip: Seq<char>,
    score: u32,
    now: u64,
)
    requires
        cfg.cdp_detection_enabled,
        cfg.cdp_auto_ban,
        single_ge(score, cfg.cdp_detection_threshold),
        now + cfg.ban_durations.duration_of("cdp"@) <= u64::MAX,
    ensures
        ({
            let after = cdp_store_after(m, cfg, ip, Some(score), now);
            &&& after.contains_key(ban_key_of(default_site(), ip))
            &&& after[ban_key_of(default_site(), ip)] == record_bytes(
                automation_reason(),
                (now + cfg.ban_durations.duration_of("cdp"@)) as u64,
            )
            &&& same_ledger_but(m, after, default_site(), ip)
        }),
{
    assert forall|s: Seq<char>, i: Seq<char>| #[trigger]
        ban_key_of(s, i) != metric_key_of(MetricName::CdpDetections, None) && ban_key_of(s, i)
            != metric_key_of(MetricName::BansTotal, Some(automation_reason())) by {
        crate::keys::lemma_ban_key_apart(s, i, s, i, MetricName::CdpDetections, None);
        crate::keys::lemma_ban_key_apart(
            s,
            i,
            s,
            i,
            MetricName::BansTotal,
            Some(automation_reason()),
        );
    }
}

} // verus!

verus! {

/// Takes the report that `ip` sent now, by the system clock.
pub fn handle_cdp_report<S: KeyValueStore>(
    store: &mut S,
    cfg: &Config,
    ip: &str,
    report: Option<&CdpReport>,
    score_label: &str,
) -> (reply: CdpReply)
    ensures
        final(store).dependable() == old(store).dependable(),
        reply.outcome == cdp_outcome_of(*cfg, score_of(report)),
        reply.outcome == CdpOutcome::Disabled || reply.outcome == CdpOutcome::Malformed
            ==> final(store).contents() == old(store).contents() && reply.events@.len() == 0,
        old(store).dependable() ==> exists|now: u64|
            final(store).contents() == #[trigger] cdp_store_after(
                old(store).contents(),
                *cfg,
                ip@,
                score_of(report),
                now,
            ),
{
    let now = crate::admin::now_ts();
    handle_cdp_report_at(store, cfg, ip, report, score_label, now)
}

/// Whether `k` is a key that a report from `ip` may read or write: the
/// two counters and the ban record of the address.
pub open spec fn report_touches(ip: Seq<char>, k: Seq<char>) -> bool {
    ||| k == metric_key_of(MetricName::CdpDetections, None)
    ||| k == metric_key_of(MetricName::BansTotal, Some(automation_reason()))
    ||| k == ban_key_of(default_site(), ip)
}

/// The keys that a report from `ip` may read or write.
pub fn report_keys(ip: &str) -> (keys: Vec<String>)
    ensures
        forall|k: Seq<char>|
            report_touches(ip@, k) <==> exists|i: int|
                0 <= i < keys@.len() && #[trigger] keys@[i]@ == k,
{
    proof {
        reveal_strlit("default");
        reveal_strlit("cdp_automation");
        assert("default"@ =~= default_site());
        assert("cdp_automation"@ =~= automation_reason());
    }
    let keys: Vec<String> = vec![
        crate::metrics::metric_key(MetricName::CdpDetections, None),
        crate::metrics::metric_key(MetricName::BansTotal, Some("cdp_automation")),
        crate::ban::ban_key("default", ip),
    ];
    proof {
        assert forall|k: Seq<char>| report_touches(ip@, k) implies exists|i: int|
            0 <= i < keys@.len() && #[trigger] keys@[i]@ == k by {
            if k == metric_key_of(MetricName::CdpDetections, None) {
                assert(keys@[0]@ == k);
            } else if k == metric_key_of(MetricName::BansTotal, Some(automation_reason())) {
                assert(keys@[1]@ == k);
            } else {
                assert(keys@[2]@ == k);
            }
        }
    }
    keys
}

/// A report touches nothing but its keys, and looks at nothing but them.
pub proof fn law_report_keeps_to_its_keys(
    a: Map<Seq<char>, Seq<u8>>,
    b: Map<Seq<char>, Seq<u8>>,
    cfg: Config,
    ip: Seq<char>,
    score: Option<u32>,
    now: u64,
    k: Seq<char>,
)
    requires
        forall|x: Seq<char>| report_touches(ip, x) ==> #[trigger] crate::store::agree_at(a, b, x),
    ensures
        !report_touches(ip, k) ==> crate::store::agree_at(
            a,
            cdp_store_after(a, cfg, ip, score, now),
            k,
        ),
        report_touches(ip, k) ==> crate::store::agree_at(
            cdp_store_after(a, cfg, ip, score, now),
            cdp_store_after(b, cfg, ip, score, now),
            k,
        ),
{
    assert(crate::store::agree_at(a, b, metric_key_of(MetricName::CdpDetections, None)));
    assert(crate::store::agree_at(
        a,
        b,
        metric_key_of(MetricName::BansTotal, Some(automation_reason())),
    ));
    assert(crate::store::agree_at(a, b, ban_key_of(default_site(), ip)));
    crate::keys::lemma_ban_key_apart(
        default_site(),
        ip,
        default_site(),
        ip,
        MetricName::CdpDetections,
        None,
    );
    crate::keys::lemma_ban_key_apart(
        default_site(),
        ip,
        default_site(),
        ip,
        MetricName::BansTotal,
        Some(automation_reason()),
    );
}

} // verus!
