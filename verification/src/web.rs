//! The decisions of the HTTP API: admin check, the fields of a pack upload,
//! the API key and settings it leads to, and the front-end asset served for a
//! path.
use vstd::prelude::*;
use crate::ansi::{parse_i32, parse_int};
use crate::term::{TermGenOptions, WindowStyle};
use crate::text::{
    contains_seq, owned, replace_all, replace_str, split_char, split_str, str_contains, str_eq,
    trim_start_char, trim_start_matches_char, trim_str, trim_ws,
};

verus! {

// ---------------------------------------------------------------------------
// Admin password
// ---------------------------------------------------------------------------

/// The body of an admin check: the password, if one was sent.
pub struct VerifyAdminPayload {
    pub admin_password: Option<String>,
}

/// A password was sent, it is not empty, and it is the configured one.
pub open spec fn admin_ok(sent: Option<Seq<char>>, configured: Seq<char>) -> bool {
    match sent {
        Some(p) => p.len() > 0 && p == configured,
        None => false,
    }
}

/// Whether the payload holds the admin password `configured` (an empty
/// password never counts).
pub fn admin_verified(payload: &VerifyAdminPayload, configured: &str) -> (b: bool)
    ensures
        b == admin_ok(
            match payload.admin_password {
                Some(p) => Some(p@),
                None => None,
            },
            configured@,
        ),
{
    match &payload.admin_password {
        Some(p) => !p.as_str().is_empty() && str_eq(p.as_str(), configured),
        None => false,
    }
}

/// The HTTP status of an admin check.
pub fn admin_status(verified: bool) -> (s: u16)
    ensures
        s == (if verified {
            200u16
        } else {
            401u16
        }),
{
    if verified {
        200
    } else {
        401
    }
}

/// A right password can never be empty, so an empty configured password
/// admits nobody.
pub proof fn law_empty_password_admits_nobody(sent: Option<Seq<char>>)
    ensures
        !admin_ok(sent, Seq::empty()),
{
}

// ---------------------------------------------------------------------------
// The fields of a pack upload
// ---------------------------------------------------------------------------

/// The settings gathered from the text fields and files of a pack upload.
pub struct PackForm {
    pub ext: String,
    pub doc_title: String,
    pub doc_text: String,
    /// The last `font_size` field as sent (the renderer reads it as a number).
    pub font_size: Option<String>,
    pub theme: String,
    pub prompt: String,
    pub no_prompt_highlight: bool,
    pub padding: i32,
    pub style: WindowStyle,
    pub username: String,
    pub hostname: String,
    pub cwd: String,
    pub page_break: bool,
    pub folder_name: String,
    pub got_files: bool,
    pub gemini_api_key: String,
    pub admin_password: String,
    pub ai_provider: String,
    pub ai_model: String,
    pub ai_base_url: String,
}

/// The window style a field names: `macos`, `linux`, else Windows.
pub open spec fn style_named(text: Seq<char>) -> WindowStyle {
    if text == "macos"@ {
        WindowStyle::Macos
    } else if text == "linux"@ {
        WindowStyle::Linux
    } else {
        WindowStyle::Windows
    }
}

/// The form after the text field `name` with value `text`: known fields set
/// their setting (`padding` falls back to 28 when it is not an integer, the
/// flags are on for `true` only), other fields change nothing.
pub open spec fn form_after_field(f: PackForm, name: Seq<char>, text: String) -> PackForm {
    if name == "ext"@ {
        PackForm { ext: text, ..f }
    } else if name == "doc_title"@ {
        PackForm { doc_title: text, ..f }
    } else if name == "doc_text"@ {
        PackForm { doc_text: text, ..f }
    } else if name == "font_size"@ {
        PackForm { font_size: Some(text), ..f }
    } else if name == "theme"@ {
        PackForm { theme: text, ..f }
    } else if name == "prompt"@ {
        PackForm { prompt: text, ..f }
    } else if name == "no_prompt_highlight"@ {
        PackForm { no_prompt_highlight: text@ == "true"@, ..f }
    } else if name == "padding"@ {
        PackForm {
            padding: match parse_int(text@) {
                Some(v) => v as i32,
                None => 28,
            },
            ..f
        }
    } else if name == "style"@ {
        PackForm { style: style_named(text@), ..f }
    } else if name == "username"@ {
        PackForm { username: text, ..f }
    } else if name == "hostname"@ {
        PackForm { hostname: text, ..f }
    } else if name == "cwd"@ {
        PackForm { cwd: text, ..f }
    } else if name == "page_break"@ {
        PackForm { page_break: text@ == "true"@, ..f }
    } else if name == "gemini_api_key"@ {
        PackForm { gemini_api_key: text, ..f }
    } else if name == "admin_password"@ {
        PackForm { admin_password: text, ..f }
    } else if name == "ai_provider"@ {
        PackForm { ai_provider: text, ..f }
    } else if name == "ai_model"@ {
        PackForm { ai_model: text, ..f }
    } else if name == "ai_base_url"@ {
        PackForm { ai_base_url: text, ..f }
    } else {
        f
    }
}

/// The text fields that an upload may set.
pub open spec fn known_field(name: Seq<char>) -> bool {
    ||| name == "ext"@
    ||| name == "doc_title"@
    ||| name == "doc_text"@
    ||| name == "font_size"@
    ||| name == "theme"@
    ||| name == "prompt"@
    ||| name == "no_prompt_highlight"@
    ||| name == "padding"@
    ||| name == "style"@
    ||| name == "username"@
    ||| name == "hostname"@
    ||| name == "cwd"@
    ||| name == "page_break"@
    ||| name == "gemini_api_key"@
    ||| name == "admin_password"@
    ||| name == "ai_provider"@
    ||| name == "ai_model"@
    ||| name == "ai_base_url"@
}

/// Each field sets its own setting and nothing else: a text setting becomes
/// the field's text, `font_size` is kept as sent, the two flags are on for
/// `true` only, `padding` is the integer sent (28 when it is none), `style`
/// names the window style; every other setting keeps its value, and a field
/// of any other name changes nothing.
pub proof fn law_field_sets_only_itself(f: PackForm, name: Seq<char>, text: String)
    ensures
        name == "ext"@ ==> form_after_field(f, name, text) == (PackForm { ext: text, ..f }),
        name == "doc_title"@ ==> form_after_field(f, name, text) == (PackForm { doc_title: text, ..f }),
        name == "doc_text"@ ==> form_after_field(f, name, text) == (PackForm { doc_text: text, ..f }),
        name == "theme"@ ==> form_after_field(f, name, text) == (PackForm { theme: text, ..f }),
        name == "prompt"@ ==> form_after_field(f, name, text) == (PackForm { prompt: text, ..f }),
        name == "username"@ ==> form_after_field(f, name, text) == (PackForm { username: text, ..f }),
        name == "hostname"@ ==> form_after_field(f, name, text) == (PackForm { hostname: text, ..f }),
        name == "cwd"@ ==> form_after_field(f, name, text) == (PackForm { cwd: text, ..f }),
        name == "gemini_api_key"@ ==> form_after_field(f, name, text) == (PackForm { gemini_api_key: text, ..f }),
        name == "admin_password"@ ==> form_after_field(f, name, text) == (PackForm { admin_password: text, ..f }),
        name == "ai_provider"@ ==> form_after_field(f, name, text) == (PackForm { ai_provider: text, ..f }),
        name == "ai_model"@ ==> form_after_field(f, name, text) == (PackForm { ai_model: text, ..f }),
        name == "ai_base_url"@ ==> form_after_field(f, name, text) == (PackForm { ai_base_url: text, ..f }),
        name == "font_size"@ ==> form_after_field(f, name, text) == (PackForm { font_size: Some(text), ..f }),
        name == "no_prompt_highlight"@ ==> form_after_field(f, name, text) == (PackForm {
            no_prompt_highlight: text@ == "true"@,
            ..f
        }),
        name == "page_break"@ ==> form_after_field(f, name, text) == (PackForm {
            page_break: text@ == "true"@,
            ..f
        }),
        name == "padding"@ && parse_int(text@) is Some ==> form_after_field(f, name, text) == (PackForm {
            padding: parse_int(text@)->0 as i32,
            ..f
        }),
        name == "padding"@ && parse_int(text@) is None ==> form_after_field(f, name, text) == (PackForm {
            padding: 28,
            ..f
        }),
        name == "style"@ ==> form_after_field(f, name, text) == (PackForm {
            style: if text@ == "macos"@ {
                WindowStyle::Macos
            } else if text@ == "linux"@ {
                WindowStyle::Linux
            } else {
                WindowStyle::Windows
            },
            ..f
        }),
        !known_field(name) ==> form_after_field(f, name, text) == f,
{
    reveal_strlit("ext");
    reveal_strlit("doc_title");
    reveal_strlit("doc_text");
    reveal_strlit("font_size");
    reveal_strlit("theme");
    reveal_strlit("prompt");
    reveal_strlit("no_prompt_highlight");
    reveal_strlit("padding");
    reveal_strlit("style");
    reveal_strlit("username");
    reveal_strlit("hostname");
    reveal_strlit("cwd");
    reveal_strlit("page_break");
    reveal_strlit("gemini_api_key");
    reveal_strlit("admin_password");
    reveal_strlit("ai_provider");
    reveal_strlit("ai_model");
    reveal_strlit("ai_base_url");
    assert("ext"@.len() == 3);
    assert("doc_title"@.len() == 9);
    assert("doc_text"@.len() == 8);
    assert("font_size"@.len() == 9);
    assert("theme"@.len() == 5);
    assert("prompt"@.len() == 6);
    assert("no_prompt_highlight"@.len() == 19);
    assert("padding"@.len() == 7);
    assert("style"@.len() == 5);
    assert("username"@.len() == 8);
    assert("hostname"@.len() == 8);
    assert("cwd"@.len() == 3);
    assert("page_break"@.len() == 10);
    assert("gemini_api_key"@.len() == 14);
    assert("admin_password"@.len() == 14);
    assert("ai_provider"@.len() == 11);
    assert("ai_model"@.len() == 8);
    assert("ai_base_url"@.len() == 11);
    assert("font_size"@[0] != "doc_title"@[0]);
    assert("style"@[0] != "theme"@[0]);
    assert("username"@[0] != "doc_text"@[0]);
    assert("hostname"@[0] != "doc_text"@[0]);
    assert("hostname"@[0] != "username"@[0]);
    assert("cwd"@[0] != "ext"@[0]);
    assert("admin_password"@[0] != "gemini_api_key"@[0]);
    assert("ai_model"@[0] != "doc_text"@[0]);
    assert("ai_model"@[0] != "username"@[0]);
    assert("ai_model"@[0] != "hostname"@[0]);
    assert("ai_base_url"@[3] != "ai_provider"@[3]);
}

/// Two different fields do not disturb each other: after the username and
/// then the hostname are set, both hold what was sent, in either order.
pub proof fn law_user_and_host_independent(f: PackForm, user: String, host: String)
    ensures
        form_after_field(form_after_field(f, "username"@, user), "hostname"@, host).username == user,
        form_after_field(form_after_field(f, "username"@, user), "hostname"@, host).hostname == host,
        form_after_field(form_after_field(f, "hostname"@, host), "username"@, user).username == user,
        form_after_field(form_after_field(f, "hostname"@, host), "username"@, user).hostname == host,
{
    law_field_sets_only_itself(f, "username"@, user);
    law_field_sets_only_itself(f, "hostname"@, host);
    law_field_sets_only_itself(form_after_field(f, "username"@, user), "hostname"@, host);
    law_field_sets_only_itself(form_after_field(f, "hostname"@, host), "username"@, user);
}

impl PackForm {
    /// The settings before any field is read.
    pub fn new() -> (f: PackForm)
        ensures
            f.ext@.len() == 0,
            f.doc_title@.len() == 0,
            f.doc_text@.len() == 0,
            f.font_size is None,
            f.theme@ == "dark"@,
            f.prompt@ == "$ "@,
            !f.no_prompt_highlight,
            f.padding == 28,
            f.style == WindowStyle::Windows,
            f.username@ == "local"@,
            f.hostname@ == "host"@,
            f.cwd@ == "~"@,
            !f.page_break,
            f.folder_name@ == "folder"@,
            !f.got_files,
            f.gemini_api_key@.len() == 0,
            f.admin_password@.len() == 0,
            f.ai_provider@.len() == 0,
            f.ai_model@.len() == 0,
            f.ai_base_url@.len() == 0,
    {
        PackForm {
            ext: String::new(),
            doc_title: String::new(),
            doc_text: String::new(),
            font_size: None,
            theme: String::from_str("dark"),
            prompt: String::from_str("$ "),
            no_prompt_highlight: false,
            padding: 28,
            style: WindowStyle::Windows,
            username: String::from_str("local"),
            hostname: String::from_str("host"),
            cwd: String::from_str("~"),
            page_break: false,
            folder_name: String::from_str("folder"),
            got_files: false,
            gemini_api_key: String::new(),
            admin_password: String::new(),
            ai_provider: String::new(),
            ai_model: String::new(),
            ai_base_url: String::new(),
        }
    }

    /// Reads the text field `name` with value `text`.
    pub fn apply_field(self, name: &str, text: String) -> (f: PackForm)
        ensures
            f == form_after_field(self, name@, text),
    {
        let mut f = self;
        if str_eq(name, "ext") {
            f.ext = text;
        } else if str_eq(name, "doc_title") {
            f.doc_title = text;
        } else if str_eq(name, "doc_text") {
            f.doc_text = text;
        } else if str_eq(name, "font_size") {
            f.font_size = Some(text);
        } else if str_eq(name, "theme") {
            f.theme = text;
        } else if str_eq(name, "prompt") {
            f.prompt = text;
        } else if str_eq(name, "no_prompt_highlight") {
            f.no_prompt_highlight = str_eq(text.as_str(), "true");
        } else if str_eq(name, "padding") {
            f.padding = match parse_i32(text.as_str()) {
                Some(v) => v,
                None => 28,
            };
        } else if str_eq(name, "style") {
            f.style = if str_eq(text.as_str(), "macos") {
                WindowStyle::Macos
            } else if str_eq(text.as_str(), "linux") {
                WindowStyle::Linux
            } else {
                WindowStyle::Windows
            };
        } else if str_eq(name, "username") {
            f.username = text;
        } else if str_eq(name, "hostname") {
            f.hostname = text;
        } else if str_eq(name, "cwd") {
            f.cwd = text;
        } else if str_eq(name, "page_break") {
            f.page_break = str_eq(text.as_str(), "true");
        } else if str_eq(name, "gemini_api_key") {
            f.gemini_api_key = text;
        } else if str_eq(name, "admin_password") {
            f.admin_password = text;
        } else if str_eq(name, "ai_provider") {
            f.ai_provider = text;
        } else if str_eq(name, "ai_model") {
            f.ai_model = text;
        } else if str_eq(name, "ai_base_url") {
            f.ai_base_url = text;
        }
        f
    }

    /// Records an uploaded file whose path starts with `first_component`: the
    /// first file names the folder.
    pub fn note_file(self, first_component: Option<String>) -> (f: PackForm)
        ensures
            f.got_files,
            f.folder_name == (match first_component {
                Some(c) => if self.folder_name@ == "folder"@ {
                    c
                } else {
                    self.folder_name
                },
                None => self.folder_name,
            }),
            f == (PackForm { got_files: true, folder_name: f.folder_name, ..self }),
    {
        let mut f = self;
        match first_component {
            Some(c) => {
                if str_eq(f.folder_name.as_str(), "folder") {
                    f.folder_name = c;
                }
            },
            None => {},
        }
        f.got_files = true;
        f
    }
}

/// Why a pack upload is refused.
#[derive(Debug)]
pub enum UploadError {
    ApiKeyRequired,
    NoFiles,
}

impl UploadError {
    /// The message of the refusal; its status is 400 (bad request).
    pub fn message(&self) -> (m: String)
        ensures
            m@ == match self {
                UploadError::ApiKeyRequired => "API Key is required"@,
                UploadError::NoFiles => "no files uploaded"@,
            },
    {
        match self {
            UploadError::ApiKeyRequired => String::from_str("API Key is required"),
            UploadError::NoFiles => String::from_str("no files uploaded"),
        }
    }
}

/// The API key to use: the server's own Gemini key when the right admin
/// password was sent, else the key sent with the upload, which must then not
/// be empty.
pub open spec fn api_key_spec(
    admin_password: Seq<char>,
    key: Seq<char>,
    env_admin: Seq<char>,
    env_gemini: Seq<char>,
) -> Option<Seq<char>> {
    if admin_password.len() > 0 && admin_password == env_admin {
        Some(env_gemini)
    } else if key.len() == 0 {
        None
    } else {
        Some(key)
    }
}

impl PackForm {
    pub fn api_key(&self, env_admin: &str, env_gemini: &str) -> (r: Result<String, UploadError>)
        ensures
            match r {
                Ok(k) => api_key_spec(self.admin_password@, self.gemini_api_key@, env_admin@, env_gemini@)
                    == Some(k@),
                Err(e) => e is ApiKeyRequired && api_key_spec(
                    self.admin_password@,
                    self.gemini_api_key@,
                    env_admin@,
                    env_gemini@,
                ) is None,
            },
    {
        if !self.admin_password.as_str().is_empty() && str_eq(self.admin_password.as_str(), env_admin) {
            Ok(owned(env_gemini))
        } else if self.gemini_api_key.as_str().is_empty() {
            Err(UploadError::ApiKeyRequired)
        } else {
            Ok(owned(self.gemini_api_key.as_str()))
        }
    }

    /// The environment settings for the model calls of this upload, in the
    /// order they are made: the key (as `GEMINI_API_KEY` and `INPUT_API_KEY`)
    /// when it is not empty, then the provider, model and address when given.
    pub fn env_updates(&self, key: &str) -> (u: Vec<(String, String)>)
        ensures
            u@.map_values(|p: (String, String)| (p.0@, p.1@)) == (if key@.len() > 0 {
                seq![("GEMINI_API_KEY"@, key@), ("INPUT_API_KEY"@, key@)]
            } else {
                Seq::empty()
            }) + (if self.ai_provider@.len() > 0 {
                seq![("INPUT_PROVIDER"@, self.ai_provider@)]
            } else {
                Seq::empty()
            }) + (if self.ai_model@.len() > 0 {
                seq![("INPUT_MODEL"@, self.ai_model@)]
            } else {
                Seq::empty()
            }) + (if self.ai_base_url@.len() > 0 {
                seq![("INPUT_BASE_URL"@, self.ai_base_url@)]
            } else {
                Seq::empty()
            }),
    {
        let mut u: Vec<(String, String)> = Vec::new();
        if !key.is_empty() {
            u.push((String::from_str("GEMINI_API_KEY"), owned(key)));
            u.push((String::from_str("INPUT_API_KEY"), owned(key)));
        }
        let ghost a = u@;
        if !self.ai_provider.as_str().is_empty() {
            u.push((String::from_str("INPUT_PROVIDER"), owned(self.ai_provider.as_str())));
        }
        let ghost b = u@;
        if !self.ai_model.as_str().is_empty() {
            u.push((String::from_str("INPUT_MODEL"), owned(self.ai_model.as_str())));
        }
        let ghost c = u@;
        if !self.ai_base_url.as_str().is_empty() {
            u.push((String::from_str("INPUT_BASE_URL"), owned(self.ai_base_url.as_str())));
        }
        proof {
            let f = |p: (String, String)| (p.0@, p.1@);
            assert(a.map_values(f) =~= (if key@.len() > 0 {
                seq![("GEMINI_API_KEY"@, key@), ("INPUT_API_KEY"@, key@)]
            } else {
                Seq::empty()
            }));
            assert(b.map_values(f) =~= a.map_values(f) + (if self.ai_provider@.len() > 0 {
                seq![("INPUT_PROVIDER"@, self.ai_provider@)]
            } else {
                Seq::empty()
            }));
            assert(c.map_values(f) =~= b.map_values(f) + (if self.ai_model@.len() > 0 {
                seq![("INPUT_MODEL"@, self.ai_model@)]
            } else {
                Seq::empty()
            }));
            assert(u@.map_values(f) =~= c.map_values(f) + (if self.ai_base_url@.len() > 0 {
                seq![("INPUT_BASE_URL"@, self.ai_base_url@)]
            } else {
                Seq::empty()
            }));
        }
        u
    }
}

/// The extensions asked for: the field split at commas, each piece trimmed,
/// empty pieces dropped (an empty field asks for none).
pub open spec fn extension_list_spec(parts: Seq<Seq<char>>) -> Seq<Seq<char>>
    decreases parts.len(),
{
    if parts.len() == 0 {
        Seq::empty()
    } else {
        let pre = extension_list_spec(parts.drop_last());
        let t = trim_ws(parts.last());
        if t.len() == 0 {
            pre
        } else {
            pre.push(t)
        }
    }
}

pub fn extension_list(ext: &str) -> (r: Vec<String>)
    ensures
        r@.map_values(|s: String| s@) == (if ext@.len() == 0 {
            Seq::empty()
        } else {
            extension_list_spec(split_char(ext@, ','))
        }),
{
    let mut r: Vec<String> = Vec::new();
    if ext.is_empty() {
        proof {
            assert(r@.map_values(|s: String| s@) =~= Seq::<Seq<char>>::empty());
        }
        return r;
    }
    let parts = split_str(ext, ',');
    let ghost sp = split_char(ext@, ',');
    let mut i: usize = 0;
    proof {
        assert(r@.map_values(|s: String| s@) =~= extension_list_spec(sp.take(0)));
    }
    while i < parts.len()
        invariant
            parts@.len() == sp.len(),
            sp == split_char(ext@, ','),
            forall|k: int| 0 <= k < parts@.len() ==> #[trigger] parts@[k]@ == sp[k],
            i <= parts@.len(),
            r@.map_values(|s: String| s@) == extension_list_spec(sp.take(i as int)),
        decreases parts@.len() - i,
    {
        let t = trim_str(parts[i].as_str());
        let ghost before = r@;
        proof {
            assert(sp.take(i + 1).drop_last() =~= sp.take(i as int));
            assert(sp.take(i + 1).last() == parts@[i as int]@);
        }
        if !t.as_str().is_empty() {
            r.push(t);
            proof {
                assert(r@.map_values(|s: String| s@) =~= before.map_values(|s: String| s@).push(
                    trim_ws(sp[i as int]),
                ));
            }
        }
        i += 1;
    }
    proof {
        assert(sp.take(i as int) =~= sp);
    }
    r
}

/// What a pack upload asks to be done, once it is accepted.
pub struct PackJob {
    pub extensions: Vec<String>,
    pub doc_title: Option<String>,
    pub doc_text: Option<String>,
    pub page_break: bool,
    pub options: TermGenOptions,
    /// The base name of the document, without extension.
    pub output_name: String,
    /// The file name the document is offered for download under.
    pub download_name: String,
}

/// `{}` in a setting stands for the folder's name.
pub open spec fn with_folder(s: Seq<char>, folder: Seq<char>) -> Seq<char> {
    replace_all(s, "{}"@, folder)
}

impl PackForm {
    /// The job of an accepted upload, or the refusal when no file came.
    pub fn job(&self) -> (r: Result<PackJob, UploadError>)
        ensures
            match r {
                Err(e) => e is NoFiles && !self.got_files,
                Ok(j) => {
                    &&& self.got_files
                    &&& j.extensions@.map_values(|s: String| s@) == (if self.ext@.len() == 0 {
                        Seq::empty()
                    } else {
                        extension_list_spec(split_char(self.ext@, ','))
                    })
                    &&& (self.doc_title@.len() == 0 ==> j.doc_title is None)
                    &&& (self.doc_title@.len() > 0 ==> j.doc_title is Some && j.doc_title->0@
                        == with_folder(self.doc_title@, self.folder_name@))
                    &&& (self.doc_text@.len() == 0 ==> j.doc_text is None)
                    &&& (self.doc_text@.len() > 0 ==> j.doc_text is Some && j.doc_text->0@
                        == with_folder(self.doc_text@, self.folder_name@))
                    &&& j.page_break == self.page_break
                    &&& j.options.title@ == "bash"@
                    &&& j.options.theme@ == self.theme@
                    &&& j.options.prompt@ == self.prompt@
                    &&& j.options.no_prompt_highlight == self.no_prompt_highlight
                    &&& j.options.padding == self.padding
                    &&& j.options.style == self.style
                    &&& j.options.username@ == self.username@
                    &&& j.options.hostname@ == self.hostname@
                    &&& j.options.cwd@ == with_folder(self.cwd@, self.folder_name@)
                    &&& j.output_name@ == self.folder_name@ + "_pack"@
                    &&& j.download_name@ == self.folder_name@ + "_pack.docx"@
                },
            },
    {
        if !self.got_files {
            return Err(UploadError::NoFiles);
        }
        proof {
            reveal_strlit("{}");
        }
        let folder = self.folder_name.as_str();
        let doc_title = if self.doc_title.as_str().is_empty() {
            None
        } else {
            Some(replace_str(self.doc_title.as_str(), "{}", folder))
        };
        let doc_text = if self.doc_text.as_str().is_empty() {
            None
        } else {
            Some(replace_str(self.doc_text.as_str(), "{}", folder))
        };
        let options = TermGenOptions {
            title: String::from_str("bash"),
            theme: owned(self.theme.as_str()),
            prompt: owned(self.prompt.as_str()),
            no_prompt_highlight: self.no_prompt_highlight,
            padding: self.padding,
            style: self.style,
            username: owned(self.username.as_str()),
            hostname: owned(self.hostname.as_str()),
            cwd: replace_str(self.cwd.as_str(), "{}", folder),
        };
        let mut output_name = owned(folder);
        output_name.append("_pack");
        let mut download_name = owned(folder);
        download_name.append("_pack.docx");
        Ok(
            PackJob {
                extensions: extension_list(self.ext.as_str()),
                doc_title,
                doc_text,
                page_break: self.page_break,
                options,
                output_name,
                download_name,
            },
        )
    }
}

/// The `Content-Disposition` header that offers `filename` for download.
pub fn content_disposition(filename: &str) -> (h: String)
    ensures
        h@ == "attachment; filename=\""@ + filename@ + "\""@,
{
    let mut h = String::from_str("attachment; filename=\"");
    h.append(filename);
    h.append("\"");
    h
}

/// The HTTP status of a failed pack: 400 when the key was refused
/// (`Invalid API Key` in the message), 500 otherwise.
pub fn pack_failure_status(message: &str) -> (s: u16)
    ensures
        s == (if contains_seq(message@, "Invalid API Key"@) {
            400u16
        } else {
            500u16
        }),
{
    if str_contains(message, "Invalid API Key") {
        400
    } else {
        500
    }
}

// ---------------------------------------------------------------------------
// Front-end assets
// ---------------------------------------------------------------------------

/// The asset that a request path names: leading slashes dropped, and the
/// site root naming `index.html`.
pub open spec fn asset_path_spec(uri_path: Seq<char>) -> Seq<char> {
    let p = trim_start_char(uri_path, '/');
    if p.len() == 0 {
        "index.html"@
    } else {
        p
    }
}

pub fn asset_path(uri_path: &str) -> (p: String)
    ensures
        p@ == asset_path_spec(uri_path@),
{
    let p = trim_start_matches_char(uri_path, '/');
    if p.as_str().is_empty() {
        String::from_str("index.html")
    } else {
        p
    }
}

/// The media type `mime_guess` gives a path (from its extension, with
/// `application/octet-stream` when it knows none).
pub uninterp spec fn guessed_mime(path: Seq<char>) -> Seq<char>;

/// `mime_guess::from_path(path).first_or_octet_stream()`, as text. The type
/// depends on the path's extension through the crate's built-in table, which
/// the contract names rather than states.
#[verifier::external_body]
fn mime_of(path: &str) -> (m: String)
    ensures
        m@ == guessed_mime(path@),
{
    mime_guess::from_path(path).first_or_octet_stream().as_ref().to_string()
}

/// What the server answers for a front-end request.
pub enum AssetReply {
    /// The asset itself, with this content type.
    Asset(String),
    /// The app's `index.html`, as `text/html`, so that the page can route.
    Index,
    NotFound,
}

/// The answer for a request of asset `path`, given whether that asset and
/// `index.html` are embedded.
pub fn asset_reply(path: &str, asset_found: bool, index_found: bool) -> (r: AssetReply)
    ensures
        asset_found ==> (r matches AssetReply::Asset(m) && m@ == guessed_mime(path@)),
        !asset_found && index_found ==> r is Index,
        !asset_found && !index_found ==> r is NotFound,
{
    if asset_found {
        AssetReply::Asset(mime_of(path))
    } else if index_found {
        AssetReply::Index
    } else {
        AssetReply::NotFound
    }
}

} // verus!
