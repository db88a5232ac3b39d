//! Commands that bots offer, and the three ways in which one answers: a message, a row of buttons,
//! or a form.
use vstd::prelude::*;
use crate::json::{Json, JsonV, collect, elements, flag_or, jopt, jstr, law_put_then_read, lemma_collect_step, nothing, text_or, text_or_v};
use crate::text::{decimal, decimal_text, join, joined, maybe_str, same, texts, views};
use super::http::{Method, Request, RequestV, asking, need_channel, need_token, no_channel, not_connected, request_view};
use super::people::{first_of, or_else};

verus! {

/// The request for the commands that a conversation offers, narrowed to those that match `query`.
pub open spec fn commands_request(
    token: Option<Seq<char>>,
    channel_id: Option<Seq<char>>,
    query: Seq<char>,
) -> Result<RequestV, Seq<char>> {
    match (token, channel_id) {
        (None, _) => Err(not_connected()),
        (_, None) => Err(no_channel()),
        (Some(t), Some(c)) => {
            let all = asking(
                Method::Get,
                "/channels/"@ + c + "/application-commands/search"@,
                t,
            ).with_query("type"@, "1"@).with_query("include_applications"@, "true"@).with_query(
                "limit"@,
                "25"@,
            );
            Ok(
                if query.len() > 0 {
                    all.with_query("query"@, query)
                } else {
                    all
                },
            )
        },
    }
}

/// Asks for the commands that a conversation offers.
pub fn list_commands(token: Option<&str>, channel_id: Option<&str>, query: &str) -> (r: Result<
    Request,
    String,
>)
    ensures
        request_view(r) == commands_request(maybe_str(token), maybe_str(channel_id), query@),
{
    let token = match need_token(token) {
        Ok(t) => t,
        Err(e) => {
            return Err(e);
        },
    };
    let channel_id = match need_channel(channel_id) {
        Ok(c) => c,
        Err(e) => {
            return Err(e);
        },
    };
    let mut path = "/channels/".to_owned();
    path.append(channel_id);
    path.append("/application-commands/search");
    let all = Request::new(Method::Get, path.as_str(), token).with_query("type", "1").with_query(
        "include_applications",
        "true",
    ).with_query("limit", "25");
    if query.is_empty() {
        Ok(all)
    } else {
        Ok(all.with_query("query", query))
    }
}

/// What the last application of the list with this id is called.
pub open spec fn application_name(applications: Seq<JsonV>, id: Seq<char>) -> Option<Seq<char>>
    decreases applications.len(),
{
    if applications.len() == 0 {
        None
    } else {
        let app = applications.last();
        if app.at("id"@).text() == Some(id) && app.at("name"@).text() is Some {
            app.at("name"@).text()
        } else {
            application_name(applications.drop_last(), id)
        }
    }
}

fn find_application<'a>(applications: &'a Vec<Json>, id: &str) -> (r: Option<&'a str>)
    ensures
        maybe_str(r) == application_name(views(applications@), id@),
{
    let ghost all = views(applications@);
    let mut i: usize = applications.len();
    assert(all.take(i as int) =~= all);
    while i > 0
        invariant
            i <= applications.len(),
            all == views(applications@),
            application_name(all, id@) == application_name(all.take(i as int), id@),
        decreases i,
    {
        i -= 1;
        assert(all.take(i + 1).drop_last() =~= all.take(i as int));
        assert(all.take(i + 1).last() == applications@[i as int]@);
        let app = &applications[i];
        match (app.at("id").text(), app.at("name").text()) {
            (Some(app_id), Some(name)) => {
                if same(app_id, id) {
                    return Some(name);
                }
            },
            _ => {},
        }
    }
    None
}

/// A command as the list shows it. The command itself travels along, since it is handed back as it
/// was given.
pub open spec fn command_row(command: JsonV, applications: Seq<JsonV>) -> JsonV {
    let application_id = command.at("application_id"@).text_or_empty();
    nothing().put("id"@, command.at("id"@)).put("name"@, command.at("name"@)).put(
        "description"@,
        command.at("description"@),
    ).put("applicationId"@, jstr(application_id)).put(
        "application"@,
        jopt(application_name(applications, application_id)),
    ).put("command"@, command)
}

/// The commands of an answer.
pub open spec fn command_rows(answer: JsonV) -> Seq<JsonV> {
    let commands = answer.at("application_commands"@).items();
    Seq::new(
        commands.len(),
        |i: int| command_row(commands[i], answer.at("applications"@).items()),
    )
}

pub fn commands_listed(answer: &Json) -> (r: Json)
    ensures
        r@ == nothing().put("commands"@, JsonV::List(command_rows(answer@))),
{
    let none: Vec<Json> = Vec::new();
    let applications = elements(answer.at("applications"), &none);
    let commands = elements(answer.at("application_commands"), &none);
    let ghost apps = answer@.at("applications"@).items();
    let ghost all = answer@.at("application_commands"@).items();
    let mut rows: Vec<Json> = Vec::new();
    let mut i: usize = 0;
    while i < commands.len()
        invariant
            i <= commands.len(),
            all == views(commands@),
            apps == views(applications@),
            rows.len() == i,
            forall|j: int| 0 <= j < i ==> (#[trigger] rows@[j])@ == command_row(all[j], apps),
        decreases commands.len() - i,
    {
        let command = &commands[i];
        assert(command@ == all[i as int]);
        let application_id = command.at("application_id").text_or_empty();
        let row = Json::object().put("id", command.at("id").copy()).put(
            "name",
            command.at("name").copy(),
        ).put("description", command.at("description").copy()).put(
            "applicationId",
            Json::string(application_id),
        ).put("application", Json::opt(find_application(applications, application_id))).put(
            "command",
            command.copy(),
        );
        rows.push(row);
        i += 1;
    }
    assert(views(rows@) =~= command_rows(answer@));
    Json::object().put("commands", Json::list(rows))
}

/// How one argument of a command is written: in angle brackets where it has to be given, else in
/// square ones. What is a menu of its own is no argument.
pub open spec fn argument_of(option: JsonV) -> Option<Seq<char>> {
    let kind = option.at("type"@).as_i64();
    if kind == Some(1int) || kind == Some(2int) {
        None
    } else {
        let name = text_or_v(option.at("name"@), "arg"@);
        Some(
            if flag_or(option.at("required"@), false) {
                "<"@ + name + ">"@
            } else {
                "["@ + name + "]"@
            },
        )
    }
}

pub open spec fn argument_reader() -> spec_fn(JsonV) -> Option<Seq<char>> {
    |option: JsonV| argument_of(option)
}

fn write_argument(option: &Json) -> (r: Option<String>)
    ensures
        crate::text::maybe(r) == argument_of(option@),
{
    match option.at("type").as_i64() {
        Some(kind) => {
            if kind == 1 || kind == 2 {
                return None;
            }
        },
        None => {},
    }
    let name = text_or(option.at("name"), "arg");
    let required = match option.at("required").flag() {
        Some(b) => b,
        None => false,
    };
    let mut out = String::new();
    if required {
        out.append("<");
        out.append(name);
        out.append(">");
        assert(out@ =~= "<"@ + name@ + ">"@);
    } else {
        out.append("[");
        out.append(name);
        out.append("]");
        assert(out@ =~= "["@ + name@ + "]"@);
    }
    Some(out)
}

/// What goes after a command's name, as a manual page writes it.
pub fn command_usage(command: &Json) -> (r: String)
    ensures
        r@ == joined(collect(command@.at("options"@).items(), argument_reader()), " "@),
{
    let none: Vec<Json> = Vec::new();
    let options = elements(command.at("options"), &none);
    let ghost all = command@.at("options"@).items();
    let mut out: Vec<String> = Vec::new();
    let mut i: usize = 0;
    assert(texts(out@) =~= collect(all.take(0), argument_reader()));
    while i < options.len()
        invariant
            i <= options.len(),
            all == views(options@),
            texts(out@) == collect(all.take(i as int), argument_reader()),
        decreases options.len() - i,
    {
        let ghost before = out@;
        proof {
            lemma_collect_step(all, argument_reader(), i as int);
            assert(all[i as int] == options@[i as int]@);
        }
        match write_argument(&options[i]) {
            Some(argument) => {
                out.push(argument);
                assert(texts(out@) =~= texts(before).push(argument@));
            },
            None => {},
        }
        i += 1;
    }
    assert(all.take(i as int) =~= all);
    join(&out, " ")
}

/// The moment from which the service counts, in milliseconds since the epoch.
pub const FIRST_MOMENT: u64 = 1_420_070_400_000;

/// The last moment that an id can stand for, in milliseconds since the epoch.
pub const LAST_MOMENT: u64 = 5_818_116_911_103;

/// A number for an interaction that starts at a moment: what the service would count it as, with
/// room for what happens in the same millisecond.
pub open spec fn nonce_of(millis: u64) -> Seq<char> {
    if millis <= FIRST_MOMENT {
        "0"@
    } else {
        decimal_text(((millis - FIRST_MOMENT) * 0x40_0000) as nat)
    }
}

pub fn nonce_at(millis: u64) -> (r: String)
    requires
        millis <= LAST_MOMENT,
    ensures
        r@ == nonce_of(millis),
{
    if millis <= FIRST_MOMENT {
        return "0".to_owned();
    }
    decimal((millis - FIRST_MOMENT) * 0x40_0000)
}

/// The request for an interaction, and what it says besides its kind.
pub open spec fn interaction(
    token: Option<Seq<char>>,
    channel_id: Option<Seq<char>>,
    session_id: Option<Seq<char>>,
    guild_id: Option<Seq<char>>,
    kind: int,
    application_id: Seq<char>,
    message_id: Option<Seq<char>>,
    data: JsonV,
    nonce: Seq<char>,
) -> Result<RequestV, Seq<char>> {
    match (token, channel_id, session_id) {
        (None, _, _) => Err(not_connected()),
        (_, None, _) => Err(no_channel()),
        (_, _, None) => Err("this account is not connected to Discord right now"@),
        (Some(t), Some(c), Some(s)) => {
            let start = nothing().put("type"@, JsonV::Int(kind)).put(
                "application_id"@,
                jstr(application_id),
            ).put("channel_id"@, jstr(c));
            let middle = match message_id {
                Some(m) => start.put("message_id"@, jstr(m)),
                None => start,
            };
            let bare = middle.put("session_id"@, jstr(s)).put("data"@, data).put(
                "nonce"@,
                jstr(nonce),
            );
            let payload = match guild_id {
                Some(g) => bare.put("guild_id"@, jstr(g)),
                None => bare,
            };
            Ok(asking(Method::Post, "/interactions"@, t).with_body(payload))
        },
    }
}

/// Where an interaction takes place.
#[derive(Clone, Copy)]
pub struct Place<'a> {
    pub token: Option<&'a str>,
    pub channel_id: Option<&'a str>,
    /// The gateway's session.
    pub session_id: Option<&'a str>,
    pub guild_id: Option<&'a str>,
}

/// An interaction from where `place` is.
pub open spec fn interaction_at(
    place: Place<'_>,
    kind: int,
    application_id: Seq<char>,
    message_id: Option<Seq<char>>,
    data: JsonV,
    nonce: Seq<char>,
) -> Result<RequestV, Seq<char>> {
    interaction(
        maybe_str(place.token),
        maybe_str(place.channel_id),
        maybe_str(place.session_id),
        maybe_str(place.guild_id),
        kind,
        application_id,
        message_id,
        data,
        nonce,
    )
}

fn send_interaction(
    place: Place<'_>,
    kind: i64,
    application_id: &str,
    message_id: Option<&str>,
    data: Json,
    nonce: &str,
) -> (r: Result<Request, String>)
    ensures
        request_view(r) == interaction_at(
            place,
            kind as int,
            application_id@,
            maybe_str(message_id),
            data@,
            nonce@,
        ),
{
    let token = match need_token(place.token) {
        Ok(t) => t,
        Err(e) => {
            return Err(e);
        },
    };
    let channel_id = match need_channel(place.channel_id) {
        Ok(c) => c,
        Err(e) => {
            return Err(e);
        },
    };
    let session_id = match place.session_id {
        Some(s) => s,
        None => {
            return Err("this account is not connected to Discord right now".to_owned());
        },
    };
    let start = Json::object().put("type", Json::Int(kind as i128)).put(
        "application_id",
        Json::string(application_id),
    ).put("channel_id", Json::string(channel_id));
    let middle = match message_id {
        Some(m) => start.put("message_id", Json::string(m)),
        None => start,
    };
    let bare = middle.put("session_id", Json::string(session_id)).put("data", data).put(
        "nonce",
        Json::string(nonce),
    );
    let payload = match place.guild_id {
        Some(g) => bare.put("guild_id", Json::string(g)),
        None => bare,
    };
    Ok(Request::new(Method::Post, "/interactions", token).with_body(payload))
}

/// Runs a command, or sends a form back.
pub fn interact(place: Place<'_>, kind: i64, application_id: &str, data: Json, nonce: &str) -> (r: Result<
    Request,
    String,
>)
    ensures
        request_view(r) == interaction_at(
            place,
            kind as int,
            application_id@,
            None,
            data@,
            nonce@,
        ),
{
    send_interaction(place, kind, application_id, None, data, nonce)
}

/// Uses a control on a message.
pub fn interact_with_message(
    place: Place<'_>,
    application_id: &str,
    data: Json,
    message_id: &str,
    nonce: &str,
) -> (r: Result<Request, String>)
    ensures
        request_view(r) == interaction_at(
            place,
            3,
            application_id@,
            Some(message_id@),
            data@,
            nonce@,
        ),
{
    send_interaction(place, 3, application_id, Some(message_id), data, nonce)
}

/// The fields of one row of a form. What stands outside a row is a field by itself.
pub open spec fn row_fields(row: JsonV) -> Seq<JsonV> {
    match row.at("components"@) {
        JsonV::List(inner) => inner,
        _ => seq![row],
    }
}

/// A number, or null.
pub open spec fn number_or_null(n: Option<int>) -> JsonV {
    match n {
        Some(i) => JsonV::Int(i),
        None => JsonV::Null,
    }
}

fn write_number(n: Option<i64>) -> (r: Json)
    ensures
        r@ == number_or_null(
            match n {
                Some(i) => Some(i as int),
                None => None,
            },
        ),
{
    match n {
        Some(i) => Json::Int(i as i128),
        None => Json::Null,
    }
}

/// A field of a form to fill in: only a text input that can be named is one.
pub open spec fn form_field(field: JsonV) -> Option<JsonV> {
    match field.at("custom_id"@).text() {
        Some(custom_id) => if field.at("type"@).as_i64() == Some(4int) {
            Some(
                nothing().put("customId"@, jstr(custom_id)).put(
                    "label"@,
                    jstr(field.at("label"@).text_or_empty()),
                ).put("long"@, JsonV::Bool(field.at("style"@).as_i64() == Some(2int))).put(
                    "placeholder"@,
                    jstr(field.at("placeholder"@).text_or_empty()),
                ).put("value"@, jstr(field.at("value"@).text_or_empty())).put(
                    "required"@,
                    JsonV::Bool(flag_or(field.at("required"@), true)),
                ).put("minLength"@, number_or_null(field.at("min_length"@).as_i64())).put(
                    "maxLength"@,
                    number_or_null(field.at("max_length"@).as_i64()),
                ),
            )
        } else {
            None
        },
        None => None,
    }
}

pub open spec fn form_reader() -> spec_fn(JsonV) -> Option<JsonV> {
    |field: JsonV| form_field(field)
}

/// The fields of the rows of a form, in order.
pub open spec fn form_fields(rows: Seq<JsonV>) -> Seq<JsonV>
    decreases rows.len(),
{
    if rows.len() == 0 {
        Seq::empty()
    } else {
        form_fields(rows.drop_last()) + collect(row_fields(rows.last()), form_reader())
    }
}

fn write_field(field: &Json) -> (r: Option<Json>)
    ensures
        match r {
            Some(j) => form_field(field@) == Some(j@),
            None => form_field(field@) is None,
        },
{
    let custom_id = match field.at("custom_id").text() {
        Some(id) => id,
        None => {
            return None;
        },
    };
    let is_input = match field.at("type").as_i64() {
        Some(kind) => kind == 4,
        None => false,
    };
    if !is_input {
        return None;
    }
    let long = match field.at("style").as_i64() {
        Some(style) => style == 2,
        None => false,
    };
    let required = match field.at("required").flag() {
        Some(b) => b,
        None => true,
    };
    Some(
        Json::object().put("customId", Json::string(custom_id)).put(
            "label",
            Json::string(field.at("label").text_or_empty()),
        ).put("long", Json::Bool(long)).put(
            "placeholder",
            Json::string(field.at("placeholder").text_or_empty()),
        ).put("value", Json::string(field.at("value").text_or_empty())).put(
            "required",
            Json::Bool(required),
        ).put("minLength", write_number(field.at("min_length").as_i64())).put(
            "maxLength",
            write_number(field.at("max_length").as_i64()),
        ),
    )
}

/// A form that a bot asked for, as the fields to draw.
pub fn modal_fields(modal: &Json) -> (r: Vec<Json>)
    ensures
        views(r@) == form_fields(modal@.at("components"@).items()),
{
    let none: Vec<Json> = Vec::new();
    let rows = elements(modal.at("components"), &none);
    let ghost all = modal@.at("components"@).items();
    let mut out: Vec<Json> = Vec::new();
    let mut i: usize = 0;
    assert(views(out@) =~= form_fields(all.take(0)));
    while i < rows.len()
        invariant
            i <= rows.len(),
            all == views(rows@),
            views(out@) == form_fields(all.take(i as int)),
        decreases rows.len() - i,
    {
        let row = &rows[i];
        let ghost start = views(out@);
        proof {
            assert(all.take(i + 1).drop_last() =~= all.take(i as int));
            assert(all.take(i + 1).last() == row@);
        }
        match row.at("components").list_items() {
            Some(inner) => {
                let ghost fields = views(inner@);
                let mut k: usize = 0;
                assert(start + collect(fields.take(0), form_reader()) =~= start);
                while k < inner.len()
                    invariant
                        k <= inner.len(),
                        fields == views(inner@),
                        views(out@) == start + collect(fields.take(k as int), form_reader()),
                    decreases inner.len() - k,
                {
                    let ghost before = out@;
                    proof {
                        lemma_collect_step(fields, form_reader(), k as int);
                        assert(fields[k as int] == inner@[k as int]@);
                    }
                    match write_field(&inner[k]) {
                        Some(field) => {
                            out.push(field);
                            assert(form_reader()(fields[k as int]) == Some(field@));
                            assert(views(out@) =~= views(before).push(field@));
                            assert(views(out@) =~= start + collect(
                                fields.take(k + 1),
                                form_reader(),
                            ));
                        },
                        None => {},
                    }
                    k += 1;
                }
                assert(fields.take(k as int) =~= fields);
            },
            None => {
                proof {
                    let one = seq![row@];
                    assert(one.take(1) =~= one);
                    lemma_collect_step(one, form_reader(), 0);
                    assert(collect(one.take(0), form_reader()) =~= Seq::<JsonV>::empty());
                }
                match write_field(row) {
                    Some(field) => {
                        out.push(field);
                        assert(views(out@) =~= start + collect(row_fields(row@), form_reader()));
                    },
                    None => {
                        assert(start + Seq::<JsonV>::empty() =~= start);
                    },
                }
            },
        }
        i += 1;
    }
    assert(all.take(i as int) =~= all);
    out
}

/// A field of a form and what was put into it.
#[derive(Debug, PartialEq, Eq)]
pub struct FieldValue {
    pub field: String,
    pub value: String,
}

/// A field that was filled in, in the row that it belongs to.
pub open spec fn filled_row(field: Seq<char>, value: Seq<char>) -> JsonV {
    nothing().put("type"@, JsonV::Int(1)).put(
        "components"@,
        JsonV::List(
            seq![
                nothing().put("type"@, JsonV::Int(4)).put("custom_id"@, jstr(field)).put(
                    "value"@,
                    jstr(value),
                ),
            ],
        ),
    )
}

/// A form that was filled in.
pub open spec fn filled_form(modal_id: Seq<char>, custom_id: Seq<char>, values: Seq<FieldValue>) -> JsonV {
    nothing().put("id"@, jstr(modal_id)).put("custom_id"@, jstr(custom_id)).put(
        "components"@,
        JsonV::List(
            Seq::new(values.len(), |i: int| filled_row(values[i].field@, values[i].value@)),
        ),
    )
}

/// Sends a form back, filled in.
pub fn submit_modal(
    place: Place<'_>,
    application_id: &str,
    custom_id: &str,
    modal_id: &str,
    values: &Vec<FieldValue>,
    nonce: &str,
) -> (r: Result<Request, String>)
    ensures
        request_view(r) == interaction_at(
            place,
            5,
            application_id@,
            None,
            filled_form(modal_id@, custom_id@, values@),
            nonce@,
        ),
{
    let mut rows: Vec<Json> = Vec::new();
    let mut i: usize = 0;
    while i < values.len()
        invariant
            i <= values.len(),
            rows.len() == i,
            forall|j: int|
                0 <= j < i ==> (#[trigger] rows@[j])@ == filled_row(
                    values@[j].field@,
                    values@[j].value@,
                ),
        decreases values.len() - i,
    {
        let input = Json::object().put("type", Json::Int(4)).put(
            "custom_id",
            Json::string(values[i].field.as_str()),
        ).put("value", Json::string(values[i].value.as_str()));
        let mut inputs: Vec<Json> = Vec::new();
        let ghost shown = input@;
        inputs.push(input);
        assert(views(inputs@) =~= seq![shown]);
        rows.push(
            Json::object().put("type", Json::Int(1)).put("components", Json::list(inputs)),
        );
        i += 1;
    }
    assert(views(rows@) =~= Seq::new(
        values@.len(),
        |i: int| filled_row(values@[i].field@, values@[i].value@),
    ));
    let data = Json::object().put("id", Json::string(modal_id)).put(
        "custom_id",
        Json::string(custom_id),
    ).put("components", Json::list(rows));
    interact(place, 5, application_id, data, nonce)
}

/// What runs a command.
pub open spec fn command_data(command: JsonV, options: JsonV) -> JsonV {
    nothing().put("version"@, command.at("version"@)).put("id"@, command.at("id"@)).put(
        "name"@,
        command.at("name"@),
    ).put("type"@, command.at("type"@)).put("options"@, options).put(
        "application_command"@,
        command,
    ).put("attachments"@, JsonV::List(Seq::empty()))
}

/// Runs a command that was offered.
pub fn run_command(place: Place<'_>, command: &Json, options: Json, nonce: &str) -> (r: Result<
    Request,
    String,
>)
    ensures
        request_view(r) == (match command@.at("application_id"@).text() {
            Some(application_id) => interaction_at(
                place,
                2,
                application_id,
                None,
                command_data(command@, options@),
                nonce@,
            ),
            None => Err("that command says which bot it belongs to"@),
        }),
{
    let application_id = match command.at("application_id").text() {
        Some(id) => id,
        None => {
            return Err("that command says which bot it belongs to".to_owned());
        },
    };
    let none: Vec<Json> = Vec::new();
    assert(views(none@) =~= Seq::empty());
    let data = Json::object().put("version", command.at("version").copy()).put(
        "id",
        command.at("id").copy(),
    ).put("name", command.at("name").copy()).put("type", command.at("type").copy()).put(
        "options",
        options,
    ).put("application_command", command.copy()).put("attachments", Json::list(none));
    interact(place, 2, application_id, data, nonce)
}

/// Asks for the message that carries a control, to learn whose it is.
pub open spec fn control_request(
    token: Option<Seq<char>>,
    channel_id: Option<Seq<char>>,
    message_id: Seq<char>,
) -> Result<RequestV, Seq<char>> {
    match (token, channel_id) {
        (None, _) => Err(not_connected()),
        (_, None) => Err(no_channel()),
        (Some(t), Some(c)) => Ok(
            asking(Method::Get, "/channels/"@ + c + "/messages/"@ + message_id, t),
        ),
    }
}

pub fn find_control(token: Option<&str>, channel_id: Option<&str>, message_id: &str) -> (r: Result<
    Request,
    String,
>)
    ensures
        request_view(r) == control_request(maybe_str(token), maybe_str(channel_id), message_id@),
{
    let token = match need_token(token) {
        Ok(t) => t,
        Err(e) => {
            return Err(e);
        },
    };
    let channel_id = match need_channel(channel_id) {
        Ok(c) => c,
        Err(e) => {
            return Err(e);
        },
    };
    let mut path = "/channels/".to_owned();
    path.append(channel_id);
    path.append("/messages/");
    path.append(message_id);
    Ok(Request::new(Method::Get, path.as_str(), token))
}

/// The bot that posted a message.
pub open spec fn bot_of(message: JsonV) -> Option<Seq<char>> {
    or_else(message.at("application_id"@).text(), message.at("author"@).at("id"@).text())
}

/// What using a control says: that it is a button, or a menu and what was chosen from it.
pub open spec fn control_data(custom_id: Seq<char>, is_select: bool, values: Seq<Seq<char>>) -> JsonV {
    let bare = nothing().put(
        "component_type"@,
        JsonV::Int(
            if is_select {
                3
            } else {
                2
            },
        ),
    ).put("custom_id"@, jstr(custom_id));
    if is_select {
        bare.put("values"@, JsonV::List(Seq::new(values.len(), |i: int| jstr(values[i]))))
    } else {
        bare
    }
}

/// Presses a button or answers a menu, given the message that carries it.
pub fn use_component(
    place: Place<'_>,
    message: &Json,
    message_id: &str,
    custom_id: &str,
    is_select: bool,
    values: &Vec<String>,
    nonce: &str,
) -> (r: Result<Request, String>)
    ensures
        request_view(r) == (match bot_of(message@) {
            Some(application_id) => interaction_at(
                place,
                3,
                application_id,
                Some(message_id@),
                control_data(custom_id@, is_select, texts(values@)),
                nonce@,
            ),
            None => Err("that message does not say which bot posted it"@),
        }),
{
    let application_id = match first_of(
        message.at("application_id").text(),
        message.at("author").at("id").text(),
    ) {
        Some(id) => id,
        None => {
            return Err("that message does not say which bot posted it".to_owned());
        },
    };
    let kind: i128 = if is_select {
        3
    } else {
        2
    };
    let bare = Json::object().put("component_type", Json::Int(kind)).put(
        "custom_id",
        Json::string(custom_id),
    );
    let data = if is_select {
        bare.put("values", super::conversations::json_texts(values))
    } else {
        bare
    };
    interact_with_message(place, application_id, data, message_id, nonce)
}

/// Only text inputs become fields, whatever else a form holds.
pub proof fn law_only_text_inputs(field: JsonV)
    requires
        field.at("type"@).as_i64() != Some(4int),
    ensures
        form_field(field) is None,
{
}

/// A form with nothing in it has no fields.
pub proof fn law_an_empty_form_has_no_fields(modal: JsonV)
    requires
        modal.at("components"@).items().len() == 0,
    ensures
        form_fields(modal.at("components"@).items()).len() == 0,
{
}

/// Commands are asked for of their channel, with the token, narrowed to what is looked for where
/// anything is.
pub proof fn law_commands_are_asked_of_their_channel(
    token: Option<Seq<char>>,
    channel_id: Option<Seq<char>>,
    query: Seq<char>,
)
    ensures
        ({
            let r = commands_request(token, channel_id, query);
            &&& r is Ok <==> token is Some && channel_id is Some
            &&& token is None ==> r == Err::<RequestV, Seq<char>>(not_connected())
            &&& token is Some && channel_id is None ==> r == Err::<RequestV, Seq<char>>(no_channel())
            &&& r is Ok ==> {
                let q = r->Ok_0;
                &&& q.method == Method::Get
                &&& q.url == "https://discord.com/api/v10"@ + ("/channels/"@ + channel_id->0
                    + "/application-commands/search"@)
                &&& q.headers.len() == 1 && q.headers[0].value == token->0
                &&& q.query.len() == (if query.len() > 0 {
                    4int
                } else {
                    3
                })
                &&& q.query[0].name == "type"@ && q.query[0].value == "1"@
                &&& q.query[1].name == "include_applications"@ && q.query[1].value == "true"@
                &&& q.query[2].name == "limit"@ && q.query[2].value == "25"@
                &&& query.len() > 0 ==> q.query[3].name == "query"@ && q.query[3].value == query
            }
        }),
{
}

/// An application is called by the last of the list that has its id and a name; one that is not
/// listed so has no name.
pub proof fn law_the_last_application_names(
    applications: Seq<JsonV>,
    last: JsonV,
    id: Seq<char>,
)
    ensures
        application_name(Seq::empty(), id) is None,
        last.at("id"@) == JsonV::Str(id) && last.at("name"@) is Str ==> application_name(
            applications.push(last),
            id,
        ) == last.at("name"@).text(),
        !(last.at("id"@) == JsonV::Str(id) && last.at("name"@) is Str) ==> application_name(
            applications.push(last),
            id,
        ) == application_name(applications, id),
{
    assert(applications.push(last).drop_last() =~= applications);
}

/// Every command of an answer is listed in its place, by its id, name and description, under its
/// application, and with the command itself.
pub proof fn law_every_command_is_listed(answer: JsonV, i: int)
    requires
        0 <= i < answer.at("application_commands"@).items().len(),
    ensures
        ({
            let commands = answer.at("application_commands"@).items();
            let row = command_rows(answer)[i];
            let application_id = commands[i].at("application_id"@).text_or_empty();
            &&& command_rows(answer).len() == commands.len()
            &&& row.at("id"@) == commands[i].at("id"@)
            &&& row.at("name"@) == commands[i].at("name"@)
            &&& row.at("description"@) == commands[i].at("description"@)
            &&& row.at("applicationId"@) == JsonV::Str(application_id)
            &&& row.at("application"@).text() == application_name(
                answer.at("applications"@).items(),
                application_id,
            )
            &&& row.at("command"@) == commands[i]
        }),
{
    broadcast use law_put_then_read;

    reveal_strlit("id");
    reveal_strlit("name");
    reveal_strlit("description");
    reveal_strlit("applicationId");
    reveal_strlit("application");
    reveal_strlit("command");
    assert("id"@.len() == 2);
    assert("name"@.len() == 4);
    assert("description"@.len() == 11);
    assert("applicationId"@.len() == 13);
    assert("application"@.len() == 11);
    assert("command"@.len() == 7);
    assert("application"@[0] == 'a');
    assert("description"@[0] == 'd');
}

/// An argument is written in angle brackets where it has to be given and in square ones where not; a
/// menu is no argument.
pub proof fn law_arguments_are_bracketed(option: JsonV)
    ensures
        ({
            let r = argument_of(option);
            let name = if option.at("name"@) is Str {
                option.at("name"@)->Str_0
            } else {
                "arg"@
            };
            &&& r is None <==> option.at("type"@) == JsonV::Int(1) || option.at("type"@)
                == JsonV::Int(2)
            &&& r is Some && option.at("required"@) == JsonV::Bool(true) ==> r->0 == "<"@ + name
                + ">"@
            &&& r is Some && option.at("required"@) != JsonV::Bool(true) ==> r->0 == "["@ + name
                + "]"@
        }),
{
}

/// The number of an interaction is that of its moment, counted from the first one, with room for what
/// happens in the same millisecond: a later moment has a larger number.
pub proof fn law_a_later_moment_has_a_larger_number(earlier: u64, later: u64)
    requires
        1_420_070_400_000 < earlier < later,
    ensures
        crate::text::natural_of(nonce_of(earlier)) == Some(
            ((earlier - 1_420_070_400_000) * 4_194_304) as nat,
        ),
        crate::text::natural_of(nonce_of(earlier))->0 + 4_194_304 <= crate::text::natural_of(
            nonce_of(later),
        )->0,
        nonce_of(1_420_070_400_000) == "0"@,
{
    crate::text::law_decimals_read_back(((earlier - 1_420_070_400_000) * 4_194_304) as nat);
    crate::text::law_decimals_read_back(((later - 1_420_070_400_000) * 4_194_304) as nat);
}

/// An interaction is sent by an account with a token and a session, from a channel, and says which kind
/// it is, of which bot, from where, with what and under which number; it names a message and a server
/// exactly where there is one.
pub proof fn law_an_interaction_says_where_it_is_from(
    token: Option<Seq<char>>,
    channel_id: Option<Seq<char>>,
    session_id: Option<Seq<char>>,
    guild_id: Option<Seq<char>>,
    kind: int,
    application_id: Seq<char>,
    message_id: Option<Seq<char>>,
    data: JsonV,
    nonce: Seq<char>,
)
    ensures
        ({
            let r = interaction(
                token,
                channel_id,
                session_id,
                guild_id,
                kind,
                application_id,
                message_id,
                data,
                nonce,
            );
            &&& r is Ok <==> token is Some && channel_id is Some && session_id is Some
            &&& token is None ==> r->Err_0 == not_connected()
            &&& token is Some && channel_id is None ==> r->Err_0 == no_channel()
            &&& token is Some && channel_id is Some && session_id is None ==> r->Err_0
                == "this account is not connected to Discord right now"@
            &&& r is Ok ==> {
                let q = r->Ok_0;
                let j = q.body->0;
                &&& q.method == Method::Post
                &&& q.url == "https://discord.com/api/v10"@ + "/interactions"@
                &&& q.headers.len() == 1 && q.headers[0].value == token->0
                &&& j.at("type"@) == JsonV::Int(kind)
                &&& j.at("application_id"@) == JsonV::Str(application_id)
                &&& j.at("channel_id"@) == JsonV::Str(channel_id->0)
                &&& j.at("session_id"@) == JsonV::Str(session_id->0)
                &&& j.at("data"@) == data
                &&& j.at("nonce"@) == JsonV::Str(nonce)
                &&& j.get("message_id"@) is Some <==> message_id is Some
                &&& j.at("message_id"@).text() == message_id
                &&& j.get("guild_id"@) is Some <==> guild_id is Some
                &&& j.at("guild_id"@).text() == guild_id
            }
        }),
{
    broadcast use law_put_then_read;

    reveal_strlit("type");
    reveal_strlit("application_id");
    reveal_strlit("channel_id");
    reveal_strlit("message_id");
    reveal_strlit("session_id");
    reveal_strlit("data");
    reveal_strlit("nonce");
    reveal_strlit("guild_id");
    assert("type"@.len() == 4);
    assert("application_id"@.len() == 14);
    assert("channel_id"@.len() == 10);
    assert("message_id"@.len() == 10);
    assert("session_id"@.len() == 10);
    assert("data"@.len() == 4);
    assert("nonce"@.len() == 5);
    assert("guild_id"@.len() == 8);
    assert("data"@[0] == 'd');
    assert("type"@[0] == 't');
    assert("channel_id"@[0] == 'c');
    assert("message_id"@[0] == 'm');
    assert("session_id"@[0] == 's');
}

/// A field to fill in is a text input that can be named, with all that is said of it; it has to be
/// filled in unless it is said not to, and is long where its style says so.
pub proof fn law_a_field_is_drawn_as_it_is_said(field: JsonV)
    ensures
        ({
            let r = form_field(field);
            let least = field.at("min_length"@).as_i64();
            let most = field.at("max_length"@).as_i64();
            &&& r is Some <==> field.at("type"@) == JsonV::Int(4) && field.at("custom_id"@) is Str
            &&& r is Some ==> {
                &&& r->0.at("customId"@) == field.at("custom_id"@)
                &&& r->0.at("label"@) == JsonV::Str(field.at("label"@).text_or_empty())
                &&& r->0.at("long"@) == JsonV::Bool(field.at("style"@) == JsonV::Int(2))
                &&& r->0.at("placeholder"@) == JsonV::Str(field.at("placeholder"@).text_or_empty())
                &&& r->0.at("value"@) == JsonV::Str(field.at("value"@).text_or_empty())
                &&& r->0.at("required"@) == JsonV::Bool(
                    field.at("required"@) != JsonV::Bool(false),
                )
                &&& r->0.at("minLength"@).as_i64() == least
                &&& least is None ==> r->0.at("minLength"@) is Null
                &&& r->0.at("maxLength"@).as_i64() == most
                &&& most is None ==> r->0.at("maxLength"@) is Null
            }
        }),
{
    broadcast use law_put_then_read;

    reveal_strlit("customId");
    reveal_strlit("label");
    reveal_strlit("long");
    reveal_strlit("placeholder");
    reveal_strlit("value");
    reveal_strlit("required");
    reveal_strlit("minLength");
    reveal_strlit("maxLength");
    assert("customId"@.len() == 8);
    assert("label"@.len() == 5);
    assert("long"@.len() == 4);
    assert("placeholder"@.len() == 11);
    assert("value"@.len() == 5);
    assert("required"@.len() == 8);
    assert("minLength"@.len() == 9);
    assert("maxLength"@.len() == 9);
    assert("customId"@[0] == 'c');
    assert("required"@[0] == 'r');
    assert("label"@[0] == 'l');
    assert("value"@[0] == 'v');
    assert("maxLength"@[1] == 'a');
    assert("minLength"@[1] == 'i');
}

/// The fields of a form are those of its rows, row by row; what stands outside a row is gone through by
/// itself.
pub proof fn law_forms_are_gone_through_row_by_row(rows: Seq<JsonV>, last: JsonV)
    ensures
        last.at("components"@) is List ==> form_fields(rows.push(last)) == form_fields(rows)
            + collect(last.at("components"@).items(), |f: JsonV| form_field(f)),
        !(last.at("components"@) is List) ==> form_fields(rows.push(last)) == form_fields(rows)
            + collect(seq![last], |f: JsonV| form_field(f)),
        form_fields(Seq::empty()).len() == 0,
{
    assert(rows.push(last).drop_last() =~= rows);
}

/// A form goes back under its own ids, with every field in a row of its own, in order, under its name
/// and with what was written into it.
pub proof fn law_a_form_goes_back_with_every_field(
    modal_id: Seq<char>,
    custom_id: Seq<char>,
    values: Seq<FieldValue>,
    i: int,
)
    requires
        0 <= i < values.len(),
    ensures
        ({
            let j = filled_form(modal_id, custom_id, values);
            let rows = j.at("components"@).items();
            let fields = rows[i].at("components"@).items();
            &&& j.at("id"@) == JsonV::Str(modal_id)
            &&& j.at("custom_id"@) == JsonV::Str(custom_id)
            &&& rows.len() == values.len()
            &&& rows[i].at("type"@) == JsonV::Int(1)
            &&& fields.len() == 1
            &&& fields[0].at("type"@) == JsonV::Int(4)
            &&& fields[0].at("custom_id"@) == JsonV::Str(values[i].field@)
            &&& fields[0].at("value"@) == JsonV::Str(values[i].value@)
        }),
{
    broadcast use law_put_then_read;

    reveal_strlit("id");
    reveal_strlit("custom_id");
    reveal_strlit("components");
    reveal_strlit("type");
    reveal_strlit("value");
    assert("id"@.len() == 2);
    assert("custom_id"@.len() == 9);
    assert("components"@.len() == 10);
    assert("type"@.len() == 4);
    assert("value"@.len() == 5);
}

/// A command is run as it was offered, with what was filled in and without files.
pub proof fn law_a_command_is_run_as_offered(command: JsonV, options: JsonV)
    ensures
        ({
            let j = command_data(command, options);
            &&& j.at("version"@) == command.at("version"@)
            &&& j.at("id"@) == command.at("id"@)
            &&& j.at("name"@) == command.at("name"@)
            &&& j.at("type"@) == command.at("type"@)
            &&& j.at("options"@) == options
            &&& j.at("application_command"@) == command
            &&& j.at("attachments"@) == JsonV::List(Seq::empty())
        }),
{
    broadcast use law_put_then_read;

    reveal_strlit("version");
    reveal_strlit("id");
    reveal_strlit("name");
    reveal_strlit("type");
    reveal_strlit("options");
    reveal_strlit("application_command");
    reveal_strlit("attachments");
    assert("version"@.len() == 7);
    assert("id"@.len() == 2);
    assert("name"@.len() == 4);
    assert("type"@.len() == 4);
    assert("options"@.len() == 7);
    assert("application_command"@.len() == 19);
    assert("attachments"@.len() == 11);
    assert("options"@[0] == 'o');
    assert("version"@[0] == 'v');
    assert("name"@[0] == 'n');
    assert("type"@[0] == 't');
}

/// The message that carries a control is asked for by its channel and its id; the bot it belongs to is
/// the one it names, and else whoever wrote it.
pub proof fn law_a_control_belongs_to_its_bot(
    token: Option<Seq<char>>,
    channel_id: Option<Seq<char>>,
    message_id: Seq<char>,
    message: JsonV,
)
    ensures
        ({
            let r = control_request(token, channel_id, message_id);
            &&& r is Ok <==> token is Some && channel_id is Some
            &&& token is None ==> r->Err_0 == not_connected()
            &&& token is Some && channel_id is None ==> r->Err_0 == no_channel()
            &&& r is Ok ==> r->Ok_0.method == Method::Get && r->Ok_0.url
                == "https://discord.com/api/v10"@ + ("/channels/"@ + channel_id->0 + "/messages/"@
                + message_id) && r->Ok_0.headers.len() == 1 && r->Ok_0.headers[0].value == token->0
        }),
        message.at("application_id"@) is Str ==> bot_of(message) == message.at(
            "application_id"@,
        ).text(),
        !(message.at("application_id"@) is Str) ==> bot_of(message) == message.at("author"@).at(
            "id"@,
        ).text(),
{
}

/// A button is pressed by its name; a menu is answered by its name and by everything that was chosen
/// from it, in order.
pub proof fn law_a_menu_is_answered_with_what_was_chosen(
    custom_id: Seq<char>,
    values: Seq<Seq<char>>,
)
    ensures
        ({
            let button = control_data(custom_id, false, values);
            let menu = control_data(custom_id, true, values);
            let chosen = menu.at("values"@).items();
            &&& button.at("component_type"@) == JsonV::Int(2)
            &&& menu.at("component_type"@) == JsonV::Int(3)
            &&& button.at("custom_id"@) == JsonV::Str(custom_id)
            &&& menu.at("custom_id"@) == JsonV::Str(custom_id)
            &&& button.get("values"@) is None
            &&& chosen.len() == values.len()
            &&& forall|i: int|
                0 <= i < values.len() ==> #[trigger] chosen[i] == JsonV::Str(values[i])
        }),
{
    broadcast use law_put_then_read;

    reveal_strlit("component_type");
    reveal_strlit("custom_id");
    reveal_strlit("values");
    assert("component_type"@.len() == 14);
    assert("custom_id"@.len() == 9);
    assert("values"@.len() == 6);
}

/// The arguments of a command are written one after another, with blanks between them.
pub proof fn law_arguments_are_written_one_by_one(options: Seq<JsonV>, last: JsonV)
    ensures
        ({
            let before = collect(options, argument_reader());
            let after = collect(options.push(last), argument_reader());
            let written = argument_of(last);
            &&& written is Some ==> after == before.push(written->0)
            &&& written is None ==> after == before
            &&& written is Some && before.len() > 0 ==> joined(after, " "@) == joined(before, " "@)
                + " "@ + written->0
        }),
{
    assert(options.push(last).drop_last() =~= options);
    let before = collect(options, argument_reader());
    if argument_of(last) is Some {
        assert(before.push(argument_of(last)->0).drop_last() =~= before);
    }
}

/// An interaction from a place is sent with what is known of that place.
pub proof fn law_an_interaction_is_from_its_place(
    place: Place<'_>,
    kind: int,
    application_id: Seq<char>,
    message_id: Option<Seq<char>>,
    data: JsonV,
    nonce: Seq<char>,
)
    ensures
        ({
            let r = interaction_at(place, kind, application_id, message_id, data, nonce);
            &&& r is Ok <==> place.token is Some && place.channel_id is Some && place.session_id
                is Some
            &&& r is Ok ==> {
                let j = r->Ok_0.body->0;
                &&& r->Ok_0.headers[0].value == place.token->0@
                &&& j.at("channel_id"@) == JsonV::Str(place.channel_id->0@)
                &&& j.at("session_id"@) == JsonV::Str(place.session_id->0@)
                &&& j.at("guild_id"@).text() == maybe_str(place.guild_id)
                &&& j.at("message_id"@).text() == message_id
                &&& j.at("type"@) == JsonV::Int(kind)
                &&& j.at("application_id"@) == JsonV::Str(application_id)
                &&& j.at("data"@) == data
                &&& j.at("nonce"@) == JsonV::Str(nonce)
            }
        }),
{
    law_an_interaction_says_where_it_is_from(
        maybe_str(place.token),
        maybe_str(place.channel_id),
        maybe_str(place.session_id),
        maybe_str(place.guild_id),
        kind,
        application_id,
        message_id,
        data,
        nonce,
    );
}

} // verus!
