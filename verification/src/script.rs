//! Scripts that are handed to the page.

use vstd::prelude::*;

use crate::number::{decimal, decimal_is_injective, decimal_text};
use crate::text::concat_text;

verus! {

// ---------------------------------------------------------------------------
// The script that runs when a page starts
// ---------------------------------------------------------------------------

/// The start script up to the settings.
pub const INIT_HEAD: &'static str = "(function () {
  // Prefer settings cached in localStorage (written by apply_settings on every
  // change) over this baked-in snapshot, so an in-session settings change
  // survives Facebook reloading the page (which re-runs this script). Falls back
  // to the snapshot on first load / if storage was cleared.
  var baked = ";

/// The start script from the settings up to the style sheet.
pub const INIT_MIDDLE: &'static str = ";
  try {
    // Merge the cache onto the baked defaults (rather than replacing) so a stale
    // or partial cached object can't drop fields the current build expects, and
    // sanitise enum-like settings.
    var stored = JSON.parse(localStorage.getItem('__carrier_settings') || 'null');
    if (stored && typeof stored === 'object' && !Array.isArray(stored)) {
      var merged = Object.assign({}, baked, stored);
      if (merged.badge_mode !== 'messages' && merged.badge_mode !== 'conversations') {
        merged.badge_mode = baked.badge_mode;
      }
      window.__CARRIER_SETTINGS__ = merged;
    } else {
      window.__CARRIER_SETTINGS__ = baked;
    }
  } catch (e) {
    window.__CARRIER_SETTINGS__ = baked;
  }
  var css = ";

/// The start script from the style sheet up to the assets.
pub const INIT_TAIL: &'static str = ";
  function inject() {
    if (!document.head) return false;
    if (document.head.querySelector('style[data-carrier]')) return true;
    var s = document.createElement('style');
    s.setAttribute('data-carrier', '');
    s.textContent = css;
    document.head.appendChild(s);
    return true;
  }
  if (!inject()) {
    new MutationObserver(function (_, obs) { if (inject()) obs.disconnect(); })
      .observe(document.documentElement, { childList: true, subtree: true });
  }
})();
";

// ---------------------------------------------------------------------------
// Text as a string literal
// ---------------------------------------------------------------------------

/// The hexadecimal digit with value `n`.
pub open spec fn hex_digit(n: int) -> char {
    if n < 10 {
        (48 + n) as char
    } else {
        (87 + n) as char
    }
}

/// How `c` is written inside a JSON string.
pub open spec fn escape(c: char) -> Seq<char> {
    if c == '"' {
        seq!['\\', '"']
    } else if c == '\\' {
        seq!['\\', '\\']
    } else if c == '\u{8}' {
        seq!['\\', 'b']
    } else if c == '\t' {
        seq!['\\', 't']
    } else if c == '\n' {
        seq!['\\', 'n']
    } else if c == '\u{c}' {
        seq!['\\', 'f']
    } else if c == '\r' {
        seq!['\\', 'r']
    } else if c <= '\u{1f}' {
        seq!['\\', 'u', '0', '0', hex_digit(c as int / 16), hex_digit(c as int % 16)]
    } else {
        seq![c]
    }
}

/// How `text` is written inside a JSON string.
pub open spec fn escaped(text: Seq<char>) -> Seq<char>
    decreases text.len(),
{
    if text.len() == 0 {
        Seq::empty()
    } else {
        escape(text[0]) + escaped(text.skip(1))
    }
}

/// `text` as a JSON string, quotes included.
pub open spec fn json_literal(text: Seq<char>) -> Seq<char> {
    seq!['"'] + escaped(text) + seq!['"']
}

/// `serde_json::to_string` on text: a quote, each character in turn, and a
/// quote. A quote, a backslash and the control characters below U+0020 are
/// escaped, by a letter where JSON has one and as `\u00xx` with lower-case digits
/// elsewhere; every other character stands for itself. Text never fails to
/// serialise.
#[verifier::external_body]
fn json_string(text: &str) -> (literal: String)
    ensures
        literal@ == json_literal(text@),
{
    serde_json::to_string(text).expect("text serialises")
}

/// The value of a hexadecimal digit, or -1 for another character.
pub open spec fn hex_digit_value(c: char) -> int {
    if '0' <= c <= '9' {
        c as int - 48
    } else if 'a' <= c <= 'f' {
        c as int - 87
    } else {
        -1
    }
}

/// The character that the letter `c` stands for behind a backslash.
pub open spec fn escape_letter(c: char) -> Option<char> {
    if c == '"' || c == '\\' || c == '/' {
        Some(c)
    } else if c == 'b' {
        Some('\u{8}')
    } else if c == 't' {
        Some('\t')
    } else if c == 'n' {
        Some('\n')
    } else if c == 'f' {
        Some('\u{c}')
    } else if c == 'r' {
        Some('\r')
    } else {
        None
    }
}

/// `c` in front of `rest`.
pub open spec fn prepend(c: char, rest: Option<Seq<char>>) -> Option<Seq<char>> {
    match rest {
        Some(text) => Some(seq![c] + text),
        None => None,
    }
}

/// What a page reads between the quotes of a string literal. `None` where a
/// bare quote would end the literal early, where a control character stands in
/// it, and for an escape other than a letter or `\u00xx`.
pub open spec fn unescaped(text: Seq<char>) -> Option<Seq<char>>
    decreases text.len(),
{
    if text.len() == 0 {
        Some(Seq::empty())
    } else if text[0] == '"' || text[0] <= '\u{1f}' {
        None
    } else if text[0] != '\\' {
        prepend(text[0], unescaped(text.skip(1)))
    } else if text.len() >= 6 && text[1] == 'u' && text[2] == '0' && text[3] == '0'
        && hex_digit_value(text[4]) >= 0 && hex_digit_value(text[5]) >= 0 {
        prepend(
            (hex_digit_value(text[4]) * 16 + hex_digit_value(text[5])) as char,
            unescaped(text.skip(6)),
        )
    } else if text.len() >= 2 && escape_letter(text[1]) is Some {
        prepend(escape_letter(text[1])->0, unescaped(text.skip(2)))
    } else {
        None
    }
}

/// One escaped character is read back as that character.
proof fn lemma_escape_is_read_back(c: char, rest: Seq<char>)
    ensures
        unescaped(escape(c) + rest) == prepend(c, unescaped(rest)),
{
    let text = escape(c) + rest;
    assert(text.skip(escape(c).len() as int) =~= rest);
    if c <= '\u{1f}' && escape(c).len() == 6 {
        assert(text[4] == hex_digit(c as int / 16));
        assert(text[5] == hex_digit(c as int % 16));
        assert(hex_digit_value(text[4]) == c as int / 16);
        assert(hex_digit_value(text[5]) == c as int % 16);
    }
}

/// Any text written as a string literal is one literal, free of bare quotes and
/// control characters, and a page reads it back unchanged.
pub proof fn literal_is_read_back(text: Seq<char>)
    ensures
        json_literal(text).len() >= 2,
        json_literal(text)[0] == '"',
        json_literal(text).last() == '"',
        unescaped(json_literal(text).subrange(1, json_literal(text).len() - 1)) == Some(text),
    decreases text.len(),
{
    assert(json_literal(text).subrange(1, json_literal(text).len() - 1) =~= escaped(text));
    if text.len() > 0 {
        let rest = text.skip(1);
        literal_is_read_back(rest);
        assert(json_literal(rest).subrange(1, json_literal(rest).len() - 1) =~= escaped(rest));
        lemma_escape_is_read_back(text[0], escaped(rest));
        assert(seq![text[0]] + rest =~= text);
    } else {
        assert(Seq::<char>::empty() =~= text);
    }
}

// ---------------------------------------------------------------------------
// Composition
// ---------------------------------------------------------------------------

/// What is put into every page besides the settings.
pub struct Assets {
    /// The style sheet.
    pub css: String,
    /// The script that adapts the page.
    pub script: String,
    /// The settings panel.
    pub panel: String,
    /// The bridge for inspection tools; empty in an ordinary build.
    pub bridge: String,
}

/// The script that runs when a page starts.
pub open spec fn start_script(settings_json: Seq<char>, assets: Assets) -> Seq<char> {
    INIT_HEAD@ + settings_json + INIT_MIDDLE@ + json_literal(assets.css@) + INIT_TAIL@
        + assets.script@ + "\n"@ + assets.panel@ + "\n"@ + assets.bridge@
}

/// The script that runs when a page starts: it hands the page the settings,
/// injects the style sheet, and runs the other assets. `settings_json` is the
/// settings as a JSON object.
pub fn init_script(settings_json: &str, assets: &Assets) -> (script: String)
    ensures
        script@ == start_script(settings_json@, *assets),
{
    let mut script = concat_text(INIT_HEAD, settings_json);
    script.append(INIT_MIDDLE);
    script.append(json_string(assets.css.as_str()).as_str());
    script.append(INIT_TAIL);
    script.append(assets.script.as_str());
    script.append("\n");
    script.append(assets.panel.as_str());
    script.append("\n");
    script.append(assets.bridge.as_str());
    script
}

/// A settings update up to the settings.
pub const UPDATE_HEAD: &'static str = "window.__CARRIER_SETTINGS__ = ";

/// A settings update behind the settings.
pub const UPDATE_TAIL: &'static str = "; try { localStorage.setItem('__carrier_settings', JSON.stringify(window.__CARRIER_SETTINGS__)); } catch (e) {} window.dispatchEvent(new Event('carrier:settings'));";

/// The script that hands a running page new settings.
pub open spec fn settings_update(settings_json: Seq<char>) -> Seq<char> {
    UPDATE_HEAD@ + settings_json + UPDATE_TAIL@
}

/// The script that hands a running page new settings, so that it picks them up
/// without a reload. `settings_json` is the settings as a JSON object.
pub fn settings_script(settings_json: &str) -> (script: String)
    ensures
        script@ == settings_update(settings_json@),
{
    let mut script = concat_text(UPDATE_HEAD, settings_json);
    script.append(UPDATE_TAIL);
    script
}

/// The script that opens the conversation of notification `id`.
pub open spec fn click_text(id: nat) -> Seq<char> {
    "window.__carrierNotifyClick && window.__carrierNotifyClick("@ + decimal(id) + ");"@
}

/// The script that asks the page to open the conversation of a notification
/// that was clicked.
pub fn click_script(id: u64) -> (script: String)
    ensures
        script@ == click_text(id as nat),
{
    let mut script = concat_text(
        "window.__carrierNotifyClick && window.__carrierNotifyClick(",
        decimal_text(id).as_str(),
    );
    script.append(");");
    script
}

// ---------------------------------------------------------------------------
// The scripts, written out
// ---------------------------------------------------------------------------

/// The start script has the settings and the style sheet at their places and the
/// other assets behind it, each of them whole and on a line of its own.
pub proof fn start_script_is_written_out(settings_json: Seq<char>, assets: Assets)
    ensures
        start_script(settings_json, assets) == "(function () {
  // Prefer settings cached in localStorage (written by apply_settings on every
  // change) over this baked-in snapshot, so an in-session settings change
  // survives Facebook reloading the page (which re-runs this script). Falls back
  // to the snapshot on first load / if storage was cleared.
  var baked = "@ + settings_json + ";
  try {
    // Merge the cache onto the baked defaults (rather than replacing) so a stale
    // or partial cached object can't drop fields the current build expects, and
    // sanitise enum-like settings.
    var stored = JSON.parse(localStorage.getItem('__carrier_settings') || 'null');
    if (stored && typeof stored === 'object' && !Array.isArray(stored)) {
      var merged = Object.assign({}, baked, stored);
      if (merged.badge_mode !== 'messages' && merged.badge_mode !== 'conversations') {
        merged.badge_mode = baked.badge_mode;
      }
      window.__CARRIER_SETTINGS__ = merged;
    } else {
      window.__CARRIER_SETTINGS__ = baked;
    }
  } catch (e) {
    window.__CARRIER_SETTINGS__ = baked;
  }
  var css = "@ + json_literal(assets.css@) + ";
  function inject() {
    if (!document.head) return false;
    if (document.head.querySelector('style[data-carrier]')) return true;
    var s = document.createElement('style');
    s.setAttribute('data-carrier', '');
    s.textContent = css;
    document.head.appendChild(s);
    return true;
  }
  if (!inject()) {
    new MutationObserver(function (_, obs) { if (inject()) obs.disconnect(); })
      .observe(document.documentElement, { childList: true, subtree: true });
  }
})();
"@ + assets.script@ + "\n"@ + assets.panel@ + "\n"@ + assets.bridge@,
{
}

/// The settings stand in the start script as they are, behind its fixed start:
/// scripts for different settings differ in them.
pub proof fn settings_are_baked_in(a: Seq<char>, b: Seq<char>, assets: Assets)
    requires
        a.len() == b.len(),
        start_script(a, assets) == start_script(b, assets),
    ensures
        a == b,
{
    let n = INIT_HEAD@.len() as int;
    assert(start_script(a, assets).subrange(n, n + a.len()) =~= a);
    assert(start_script(b, assets).subrange(n, n + b.len()) =~= b);
}

/// An update assigns the settings, keeps them for the next load, and announces
/// them; the settings stand in it as they are.
pub proof fn updates_are_written_out(json: Seq<char>)
    ensures
        settings_update(json) == "window.__CARRIER_SETTINGS__ = "@ + json
            + "; try { localStorage.setItem('__carrier_settings', JSON.stringify(window.__CARRIER_SETTINGS__)); } catch (e) {} window.dispatchEvent(new Event('carrier:settings'));"@,
{
}

/// A click is handed to the page with the number of its notification, so that
/// different notifications open different conversations.
pub proof fn clicks_name_their_notification(a: nat, b: nat)
    ensures
        click_text(a) == "window.__carrierNotifyClick && window.__carrierNotifyClick("@ + decimal(a)
            + ");"@,
        click_text(a) == click_text(b) ==> a == b,
{
    let head = "window.__carrierNotifyClick && window.__carrierNotifyClick("@;
    let tail = ");"@;
    let n = head.len() as int;
    assert(click_text(a).subrange(n, click_text(a).len() - tail.len()) =~= decimal(a));
    assert(click_text(b).subrange(n, click_text(b).len() - tail.len()) =~= decimal(b));
    decimal_is_injective(a, b);
}

} // verus!
