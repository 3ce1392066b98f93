//! Handing JSON-RPC requests on to a running daemon.

use vstd::prelude::*;

use crate::json;
use crate::json::Json;
use crate::rpc;
use crate::text;

verus! {

/// The media type of a forwarded request.
pub const REQUEST_TYPE: &'static str = "application/json";

/// The media types that a forwarded request accepts in return.
pub const ACCEPTED_TYPES: &'static str = "application/json, text/event-stream";

/// What a request line leads to.
pub enum ProxyPlan {
    Silent,
    Reply(Seq<char>),
    Forward { url: Seq<char>, body: Seq<char> },
}

/// The reply to `resources/read`: the text of the skill, whatever resource is asked
/// for.
pub open spec fn skill_reply(id: Json, uri: Seq<char>, skill_md: Seq<char>) -> Json {
    rpc::answer(
        id,
        Json::Obj(
            map![
                "contents"@ => Json::Arr(
                    seq![
                        Json::Obj(
                            map![
                                "uri"@ => Json::Str(uri),
                                "text"@ => Json::Str(skill_md),
                                "mimeType"@ => Json::Str("text/markdown"@),
                            ],
                        ),
                    ],
                ),
            ],
        ),
    )
}

/// The address that requests are forwarded to.
pub open spec fn endpoint(mcp_addr: Seq<char>) -> Seq<char> {
    "http://"@ + mcp_addr + "/"@
}

/// What the request `request`, written as `line`, leads to.
pub open spec fn proxy_plan(
    request: Json,
    mcp_addr: Seq<char>,
    line: Seq<char>,
    skill_md: Seq<char>,
) -> ProxyPlan {
    match rpc::text_member(request, "method"@) {
        Some(method) => if method == "resources/read"@ {
            match json::member(request, "id"@) {
                Some(id) => ProxyPlan::Reply(
                    json::json_print(
                        skill_reply(id, rpc::text_param(rpc::params_of(request), "uri"@), skill_md),
                    ),
                ),
                None => ProxyPlan::Silent,
            }
        } else {
            ProxyPlan::Forward { url: endpoint(mcp_addr), body: line }
        },
        None => ProxyPlan::Silent,
    }
}

/// Whether `reply` is the text of the reply to the request `request` for a resource.
pub open spec fn is_skill_reply(reply: Seq<char>, request: Json, skill_md: Seq<char>) -> bool {
    json::member(request, "id"@) matches Some(id) && json::written(
        reply,
        skill_reply(id, rpc::text_param(rpc::params_of(request), "uri"@), skill_md),
    )
}

/// What to do about a request line.
pub enum ProxyStep {
    /// Nothing: the line is no request.
    Silent,
    /// Write this reply.
    Reply(String),
    /// Post `body` to `url`, as [`REQUEST_TYPE`] and accepting [`ACCEPTED_TYPES`],
    /// and hand what comes back to [`daemon_reply`].
    Forward { url: String, body: String },
}

impl View for ProxyStep {
    type V = ProxyPlan;

    open spec fn view(&self) -> ProxyPlan {
        match *self {
            ProxyStep::Silent => ProxyPlan::Silent,
            ProxyStep::Reply(text) => ProxyPlan::Reply(text@),
            ProxyStep::Forward { url, body } => ProxyPlan::Forward { url: url@, body: body@ },
        }
    }
}

/// What to do about the request `request`, which the client wrote as `line`, with
/// a daemon at `mcp_addr`. `skill_md` is the text of the skill, as Markdown.
pub fn proxy_request(
    request: &serde_json::Value,
    mcp_addr: &str,
    line: &str,
    skill_md: &str,
) -> (step: ProxyStep)
    ensures
        step@ == proxy_plan(json::json_content(*request), mcp_addr@, line@, skill_md@),
        step matches ProxyStep::Reply(reply) ==> is_skill_reply(
            reply@,
            json::json_content(*request),
            skill_md@,
        ),
{
    let method = match rpc::get_text(request, "method") {
        Some(method) => method,
        None => return ProxyStep::Silent,
    };
    if text::same_text(method, "resources/read") {
        let id = match json::get(request, "id") {
            Some(id) => json::copy(id),
            None => return ProxyStep::Silent,
        };
        let params = rpc::request_params(request);
        let mut entry = json::new_object();
        json::insert(&mut entry, "uri", json::string(rpc::get_text_param(&params, "uri")));
        json::insert(&mut entry, "text", json::string(skill_md));
        json::insert(&mut entry, "mimeType", json::string("text/markdown"));
        let mut entries: Vec<serde_json::Value> = Vec::new();
        entries.push(json::object(entry));
        assert(json::contents(entries@) =~= seq![json::json_content(entries@[0])]);
        let mut members = json::new_object();
        json::insert(&mut members, "contents", json::array(entries));
        return ProxyStep::Reply(rpc::success_reply(id, json::object(members)));
    }
    let mut url = "http://".to_owned();
    url.append(mcp_addr);
    url.append("/");
    ProxyStep::Forward { url, body: line.to_owned() }
}

/// What to do about a request line, with a daemon at `mcp_addr`. A line that is
/// not JSON is dropped. `skill_md` is the text of the skill, as Markdown.
pub fn proxy_jsonrpc_to_daemon(mcp_addr: &str, request: &str, skill_md: &str) -> (step: ProxyStep)
    ensures
        step@ == match json::json_parse(request@) {
            Some(content) => proxy_plan(content, mcp_addr@, request@, skill_md@),
            None => ProxyPlan::Silent,
        },
        step matches ProxyStep::Reply(reply) ==> json::json_parse(request@) matches Some(content)
            && is_skill_reply(reply@, content, skill_md@),
{
    match json::parse(request) {
        Ok(parsed) => proxy_request(&parsed, mcp_addr, request, skill_md),
        Err(_) => ProxyStep::Silent,
    }
}

/// The JSON object that a line of an event stream carries.
pub open spec fn payload_of_line(line: Seq<char>) -> Option<Seq<char>> {
    let line = text::trimmed(line);
    if "data: {"@.is_prefix_of(line) {
        Some(line.skip("data: "@.len() as int))
    } else {
        None
    }
}

/// The first JSON object that the lines of an event stream carry.
pub open spec fn first_payload(lines: Seq<Seq<char>>) -> Option<Seq<char>>
    decreases lines.len(),
{
    if lines.len() == 0 {
        None
    } else {
        match first_payload(lines.drop_last()) {
            Some(payload) => Some(payload),
            None => payload_of_line(lines.last()),
        }
    }
}

/// The reply in what the daemon sent: the first object of an event stream, and
/// anything else as it is.
pub open spec fn reply_in(body: Seq<char>) -> Option<Seq<char>> {
    if text::occurs(body, "event:"@) {
        first_payload(text::lines(body))
    } else {
        Some(body)
    }
}

/// Once a finished line carries an object, what follows makes no difference.
proof fn lemma_payload_stays(s: Seq<char>, i: int, j: int, payload: Seq<char>)
    requires
        0 <= i <= j <= s.len(),
        first_payload(text::lines(s.take(i)).drop_last()) == Some(payload),
    ensures
        first_payload(text::lines(s.take(j)).drop_last()) == Some(payload),
        first_payload(text::lines(s.take(j))) == Some(payload),
    decreases j - i,
{
    text::lemma_parts_not_empty(s.take(i), '\n');
    if i < j {
        let before = text::lines(s.take(i));
        let after = text::lines(s.take(i + 1));
        assert(s.take(i + 1).drop_last() =~= s.take(i));
        if s[i] == '\n' {
            assert(after.drop_last() =~= before);
        } else {
            assert(after.drop_last() =~= before.drop_last());
        }
        lemma_payload_stays(s, i + 1, j, payload);
    }
}

/// The bounds of the object that the line `chars[from..to]` carries.
fn payload_bounds(chars: &Vec<char>, marker: &Vec<char>, from: usize, to: usize) -> (found: Option<
    (usize, usize),
>)
    requires
        from <= to <= chars@.len(),
        marker@ == "data: {"@,
    ensures
        match payload_of_line(chars@.subrange(from as int, to as int)) {
            Some(payload) => found matches Some((start, end)) && {
                &&& start <= end <= chars@.len()
                &&& chars@.subrange(start as int, end as int) == payload
            },
            None => found is None,
        },
{
    proof {
        reveal_strlit("data: {");
        reveal_strlit("data: ");
    }
    let (start, end) = text::trim_bounds(chars, from, to);
    let ghost line = text::trimmed(chars@.subrange(from as int, to as int));
    if end - start >= marker.len() && text::stands_at(chars, marker, start) {
        assert(line.subrange(0, marker@.len() as int) =~= chars@.subrange(
            start as int,
            start + marker@.len(),
        ));
        assert(chars@.subrange(start + 6, end as int) =~= line.skip(6));
        Some((start + 6, end))
    } else {
        assert(!"data: {"@.is_prefix_of(line)) by {
            if "data: {"@.is_prefix_of(line) {
                assert(line.subrange(0, marker@.len() as int) =~= chars@.subrange(
                    start as int,
                    start + marker@.len(),
                ));
            }
        }
        None
    }
}

/// The first JSON object that an event stream carries.
fn event_payload(body: &str) -> (payload: Option<String>)
    ensures
        match first_payload(text::lines(body@)) {
            Some(expected) => payload is Some && payload->Some_0@ == expected,
            None => payload is None,
        },
{
    let chars = text::characters(body);
    let marker = text::characters("data: {");
    let mut start: usize = 0;
    let mut i: usize = 0;
    let ghost mut done: Seq<Seq<char>> = Seq::empty();
    assert(body@.subrange(0, 0) =~= Seq::empty());
    assert(done.push(body@.subrange(0, 0)) =~= text::lines(body@.take(0)));
    while i < chars.len()
        invariant
            chars@ == body@,
            marker@ == "data: {"@,
            start <= i <= chars@.len(),
            text::lines(body@.take(i as int)) == done.push(body@.subrange(start as int, i as int)),
            first_payload(done) is None,
        decreases chars@.len() - i,
    {
        let ghost line = body@.subrange(start as int, i as int);
        assert(body@.take(i + 1).drop_last() =~= body@.take(i as int));
        assert(done.push(line).drop_last() =~= done);
        if chars[i] == '\n' {
            assert(text::lines(body@.take(i + 1)) =~= done.push(line).push(Seq::empty()));
            if let Some((from, to)) = payload_bounds(&chars, &marker, start, i) {
                proof {
                    let payload = payload_of_line(line)->Some_0;
                    assert(text::lines(body@.take(i + 1)).drop_last() =~= done.push(line));
                    assert(first_payload(done.push(line)) == Some(payload));
                    lemma_payload_stays(body@, i + 1, body@.len() as int, payload);
                    assert(body@.take(body@.len() as int) =~= body@);
                }
                return Some(body.substring_char(from, to).to_owned());
            }
            proof {
                done = done.push(line);
                assert(body@.subrange(i + 1, i + 1) =~= Seq::empty());
            }
            start = i + 1;
        } else {
            assert(body@.subrange(start as int, i + 1) =~= line.push(body@[i as int]));
        }
        i = i + 1;
    }
    assert(body@.take(i as int) =~= body@);
    assert(done.push(body@.subrange(start as int, i as int)).drop_last() =~= done);
    match payload_bounds(&chars, &marker, start, i) {
        Some((from, to)) => Some(body.substring_char(from, to).to_owned()),
        None => None,
    }
}

/// The reply to a forwarded request, from what the daemon sent; `body` is `None`
/// where nothing came back.
pub fn daemon_reply(body: Option<String>) -> (reply: Option<String>)
    ensures
        match body {
            Some(body) => match reply_in(body@) {
                Some(expected) => reply is Some && reply->Some_0@ == expected,
                None => reply is None,
            },
            None => reply is None,
        },
{
    match body {
        Some(body) => if text::contains(body.as_str(), "event:") {
            event_payload(body.as_str())
        } else {
            Some(body)
        },
        None => None,
    }
}

/// The reply that following `plan` ends with; `body` is what the daemon sent.
pub open spec fn final_reply(plan: ProxyPlan, body: Option<Seq<char>>) -> Option<Seq<char>> {
    match plan {
        ProxyPlan::Silent => None,
        ProxyPlan::Reply(reply) => Some(reply),
        ProxyPlan::Forward { .. } => match body {
            Some(body) => reply_in(body),
            None => None,
        },
    }
}

/// The text of what the daemon sent.
pub open spec fn body_view(body: Option<String>) -> Option<Seq<char>> {
    match body {
        Some(body) => Some(body@),
        None => None,
    }
}

/// The reply that a step ends with; `body` is what the daemon sent to a request that
/// was forwarded, and `None` where nothing was forwarded or nothing came back.
pub fn reply_to_step(step: ProxyStep, body: Option<String>) -> (reply: Option<String>)
    ensures
        match final_reply(step@, body_view(body)) {
            Some(expected) => reply is Some && reply->Some_0@ == expected,
            None => reply is None,
        },
{
    match step {
        ProxyStep::Silent => None,
        ProxyStep::Reply(reply) => Some(reply),
        ProxyStep::Forward { .. } => daemon_reply(body),
    }
}

/// A request that could not be forwarded gets no reply.
pub proof fn law_failed_forward_gets_no_reply(plan: ProxyPlan)
    requires
        plan is Forward,
    ensures
        final_reply(plan, None) is None,
{
}

/// The object taken from an event stream is that of the first line that carries
/// one, and there is none where no line does.
pub proof fn law_first_payload_is_first(lines: Seq<Seq<char>>)
    ensures
        match first_payload(lines) {
            Some(payload) => exists|k: int|
                0 <= k < lines.len() && payload_of_line(#[trigger] lines[k]) == Some(payload) && (
                forall|j: int| 0 <= j < k ==> payload_of_line(#[trigger] lines[j]) is None),
            None => forall|j: int|
                0 <= j < lines.len() ==> payload_of_line(#[trigger] lines[j]) is None,
        },
    decreases lines.len(),
{
    if lines.len() > 0 {
        let before = lines.drop_last();
        law_first_payload_is_first(before);
        assert(forall|j: int| 0 <= j < before.len() ==> before[j] == lines[j]);
        match first_payload(before) {
            Some(payload) => {
                let k = choose|k: int|
                    0 <= k < before.len() && payload_of_line(#[trigger] before[k]) == Some(payload)
                        && (forall|j: int|
                        0 <= j < k ==> payload_of_line(#[trigger] before[j]) is None);
                assert(payload_of_line(lines[k]) == Some(payload));
                assert forall|j: int| 0 <= j < k implies payload_of_line(
                    #[trigger] lines[j],
                ) is None by {
                    assert(payload_of_line(before[j]) is None);
                }
            },
            None => {
                assert forall|j: int| 0 <= j < lines.len() - 1 implies payload_of_line(
                    #[trigger] lines[j],
                ) is None by {
                    assert(payload_of_line(before[j]) is None);
                }
                assert(lines[lines.len() - 1] == lines.last());
            },
        }
    }
}

/// The reply taken from an event stream begins an object, and is a single line.
pub proof fn law_event_reply_is_one_object_line(body: Seq<char>)
    requires
        text::occurs(body, "event:"@),
    ensures
        reply_in(body) matches Some(reply) ==> reply.len() > 0 && reply[0] == '{'
            && !reply.contains('\n'),
{
    if let Some(reply) = reply_in(body) {
        let lines = text::lines(body);
        law_first_payload_is_first(lines);
        let k = choose|k: int|
            0 <= k < lines.len() && payload_of_line(#[trigger] lines[k]) == Some(reply) && (forall|
                j: int,
            |
                0 <= j < k ==> payload_of_line(#[trigger] lines[j]) is None);
        text::lemma_lines_are_single(body);
        text::lemma_trimmed_part(lines[k], '\n');
        reveal_strlit("data: {");
        reveal_strlit("data: ");
        let line = text::trimmed(lines[k]);
        assert(line.subrange(0, 7)[6] == '{');
        if reply.contains('\n') {
            let j = choose|j: int| 0 <= j < reply.len() && reply[j] == '\n';
            assert(line[j + 6] == '\n');
        }
    }
}

/// What is no event stream is the reply as it is.
pub proof fn law_plain_body_is_kept(body: Seq<char>)
    requires
        !text::occurs(body, "event:"@),
    ensures
        reply_in(body) == Some(body),
{
}

/// An object that is sent as the data of an event is taken out unchanged.
pub proof fn law_event_stream_is_unwrapped(payload: Seq<char>)
    requires
        payload.len() > 0,
        payload.first() == '{',
        !text::is_white_space(payload.last()),
        !payload.contains('\n'),
    ensures
        reply_in("event: message\ndata: "@ + payload + "\n\n"@) == Some(payload),
{
    reveal_strlit("event: message\ndata: ");
    reveal_strlit("\n\n");
    reveal_strlit("event:");
    reveal_strlit("event: message");
    reveal_strlit("data: ");
    reveal_strlit("data: {");
    let body = "event: message\ndata: "@ + payload + "\n\n"@;
    let data = "data: "@ + payload;
    let nothing = Seq::<char>::empty();
    assert(text::found_at(body, "event:"@, 0)) by {
        assert(body.subrange(0, 6) =~= "event:"@);
    }
    let head = "event: message"@;
    assert(!head.contains('\n'));
    assert(!data.contains('\n')) by {
        assert forall|j: int| 0 <= j < data.len() implies data[j] != '\n' by {
            if j >= 6 {
                assert(payload[j - 6] != '\n');
            }
        }
    }
    text::lemma_single_line(head);
    text::lemma_lines_after_feed(head, data);
    let two = head.push('\n') + data;
    assert(!nothing.contains('\n'));
    text::lemma_lines_after_feed(two, nothing);
    let three = two.push('\n') + nothing;
    text::lemma_lines_after_feed(three, nothing);
    assert(three.push('\n') + nothing =~= body);
    let lines = seq![head].push(data).push(nothing).push(nothing);
    assert(text::lines(body) =~= lines);

    text::lemma_trimmed_fixed(head);
    text::lemma_trimmed_fixed(data);
    text::lemma_trimmed_fixed(nothing);
    assert(payload_of_line(head) is None) by {
        if "data: {"@.is_prefix_of(head) {
            assert(head.subrange(0, 7)[0] == 'd');
        }
    }
    assert(payload_of_line(data) == Some(payload)) by {
        assert(data.subrange(0, 7) =~= "data: {"@);
        assert(data.skip(6) =~= payload);
    }
    law_first_payload_is_first(lines);
    assert(lines[0] == head && lines[1] == data && lines[2] == nothing && lines[3] == nothing);
}

/// A request for a resource is answered here, under its own id, and never
/// forwarded.
pub proof fn law_resource_reads_are_answered_here(
    request: Json,
    mcp_addr: Seq<char>,
    line: Seq<char>,
    skill_md: Seq<char>,
)
    requires
        rpc::text_member(request, "method"@) == Some("resources/read"@),
    ensures
        proxy_plan(request, mcp_addr, line, skill_md) !is Forward,
        json::member(request, "id"@) matches Some(id) ==> proxy_plan(request, mcp_addr, line, skill_md)
            == ProxyPlan::Reply(
            json::json_print(
                skill_reply(id, rpc::text_param(rpc::params_of(request), "uri"@), skill_md),
            ),
        ),
{
}

/// What is forwarded goes to the daemon's address as the client wrote it.
pub proof fn law_forwarded_line_is_unchanged(
    request: Json,
    mcp_addr: Seq<char>,
    line: Seq<char>,
    skill_md: Seq<char>,
)
    ensures
        proxy_plan(request, mcp_addr, line, skill_md) matches ProxyPlan::Forward { url, body } ==> url
            == endpoint(mcp_addr) && body == line,
{
}

/// The reply with the text of the skill is plain where the request's id is: it is
/// then read back, from the line that it is written as, as what it was made of.
pub proof fn law_skill_reply_is_plain(id: Json, uri: Seq<char>, skill_md: Seq<char>)
    requires
        json::plain(id, (json::max_depth() - 1) as nat),
    ensures
        json::plain(skill_reply(id, uri, skill_md), json::max_depth()),
{
    let depth = (json::max_depth() - 1) as nat;
    let result = skill_reply(id, uri, skill_md)->Obj_0["result"@];
    rpc::law_answer_members(id, result);
    assert(json::plain(result, depth)) by {
        reveal_with_fuel(json::plain, 4);
    }
    rpc::law_answer_is_plain(id, result, depth);
    assert(skill_reply(id, uri, skill_md) == rpc::answer(id, result));
}

/// Every request but that for a resource is forwarded, as it was written and to the
/// daemon's address. A request for a resource is answered here, under its own id and for the
/// address that it asks for. Nothing is done only where there is no method, or where a
/// request for a resource has no id.
pub proof fn law_every_other_request_is_forwarded(
    request: Json,
    mcp_addr: Seq<char>,
    line: Seq<char>,
    skill_md: Seq<char>,
)
    ensures
        ({
            let next = proxy_plan(request, mcp_addr, line, skill_md);
            let members = request->Obj_0;
            let named = request is Obj && members.contains_key("method"@) && members["method"@]
                is Str;
            let reads = named && members["method"@]->Str_0 == "resources/read"@;
            let params = members["params"@];
            let asked = members.contains_key("params"@) && params is Obj
                && params->Obj_0.contains_key("uri"@) && params->Obj_0["uri"@] is Str;
            &&& named && !reads ==> next == (ProxyPlan::Forward {
                url: "http://"@ + mcp_addr + "/"@,
                body: line,
            })
            &&& next is Silent <==> !named || (reads && !members.contains_key("id"@))
            &&& reads && members.contains_key("id"@) ==> next == ProxyPlan::Reply(
                json::json_print(
                    skill_reply(
                        members["id"@],
                        if asked {
                            params->Obj_0["uri"@]->Str_0
                        } else {
                            Seq::empty()
                        },
                        skill_md,
                    ),
                ),
            )
        }),
{
}

/// The reply with the skill carries the whole text of the skill, unchanged, as Markdown and
/// under the address that was asked for.
pub proof fn law_skill_is_carried_whole(id: Json, uri: Seq<char>, skill_md: Seq<char>)
    ensures
        skill_reply(id, uri, skill_md) matches Json::Obj(members) && {
            &&& members.dom() == set!["jsonrpc"@, "id"@, "result"@]
            &&& members["jsonrpc"@] == Json::Str("2.0"@)
            &&& members["id"@] == id
            &&& members["result"@] matches Json::Obj(result)
            &&& result.dom() == set!["contents"@]
            &&& result["contents"@] matches Json::Arr(entries)
            &&& entries.len() == 1
            &&& entries[0] matches Json::Obj(entry)
            &&& entry.dom() == set!["uri"@, "text"@, "mimeType"@]
            &&& entry["uri"@] == Json::Str(uri)
            &&& entry["text"@] == Json::Str(skill_md)
            &&& entry["mimeType"@] == Json::Str("text/markdown"@)
        },
{
    reveal_strlit("uri");
    reveal_strlit("text");
    reveal_strlit("mimeType");
    assert("uri"@.len() == 3 && "text"@.len() == 4 && "mimeType"@.len() == 8);
    let members = skill_reply(id, uri, skill_md)->Obj_0;
    rpc::law_answer_is_made_of_three(id, members["result"@]);
    let result = Json::Obj(
        map![
            "contents"@ => Json::Arr(
                seq![
                    Json::Obj(
                        map![
                            "uri"@ => Json::Str(uri),
                            "text"@ => Json::Str(skill_md),
                            "mimeType"@ => Json::Str("text/markdown"@),
                        ],
                    ),
                ],
            ),
        ],
    );
    rpc::law_answer_is_made_of_three(id, result);
    assert(members["result"@] == result);
    assert(result->Obj_0.dom() =~= set!["contents"@]);
    assert(result->Obj_0["contents"@]->Arr_0[0]->Obj_0.dom() =~= set![
        "uri"@,
        "text"@,
        "mimeType"@,
    ]);
}

/// A line of an event stream carries an object exactly where, without the white space around
/// it, it is `data: ` and then the object.
pub proof fn law_line_carries_what_follows_data(line: Seq<char>, payload: Seq<char>)
    ensures
        payload_of_line(line) == Some(payload) <==> text::trimmed(line) == "data: "@ + payload
            && payload.len() > 0 && payload[0] == '{',
{
    reveal_strlit("data: {");
    reveal_strlit("data: ");
    let bare = text::trimmed(line);
    if payload_of_line(line) == Some(payload) {
        assert(bare.subrange(0, 7) =~= "data: {"@);
        assert(bare.subrange(0, 7)[6] == '{');
        assert(bare =~= "data: "@ + payload) by {
            assert forall|i: int| 0 <= i < bare.len() implies bare[i] == ("data: "@ + payload)[i] by {
                if i < 6 {
                    assert(bare.subrange(0, 7)[i] == bare[i]);
                }
            }
        }
    }
    if bare == "data: "@ + payload && payload.len() > 0 && payload[0] == '{' {
        assert(bare.subrange(0, 7) =~= "data: {"@);
        assert(bare.skip(6) =~= payload);
    }
}

/// The reply in what the daemon sent: all of it where `event:` does not stand in it. Where it
/// does, the object on the first line that is `data: ` and an object, and nothing where no
/// line is.
pub proof fn law_reply_is_the_first_object(body: Seq<char>)
    ensures
        ({
            let lines = text::lines(body);
            let carries = |k: int, payload: Seq<char>|
                text::trimmed(lines[k]) == "data: "@ + payload && payload.len() > 0 && payload[0]
                    == '{';
            let streams = exists|before: Seq<char>, after: Seq<char>|
                body == #[trigger] (before + "event:"@ + after);
            &&& !streams ==> reply_in(body) == Some(body)
            &&& streams ==> match reply_in(body) {
                Some(reply) => exists|k: int|
                    0 <= k < lines.len() && #[trigger] carries(k, reply) && (forall|
                        j: int,
                        other: Seq<char>,
                    |
                        0 <= j < k ==> !#[trigger] carries(j, other)),
                None => forall|j: int, other: Seq<char>|
                    0 <= j < lines.len() ==> !#[trigger] carries(j, other),
            }
        }),
{
    let lines = text::lines(body);
    let carries = |k: int, payload: Seq<char>|
        text::trimmed(lines[k]) == "data: "@ + payload && payload.len() > 0 && payload[0] == '{';
    text::law_occurs_between(body, "event:"@);
    law_first_payload_is_first(lines);
    assert forall|k: int, payload: Seq<char>| #[trigger] carries(k, payload) == (payload_of_line(
        lines[k],
    ) == Some(payload)) by {
        law_line_carries_what_follows_data(lines[k], payload);
    }
    if text::occurs(body, "event:"@) {
        match first_payload(lines) {
            Some(reply) => {
                let k = choose|k: int|
                    0 <= k < lines.len() && payload_of_line(#[trigger] lines[k]) == Some(reply) && (
                    forall|j: int| 0 <= j < k ==> payload_of_line(#[trigger] lines[j]) is None);
                assert(carries(k, reply));
                assert forall|j: int, other: Seq<char>| 0 <= j < k implies !#[trigger] carries(
                    j,
                    other,
                ) by {
                    assert(payload_of_line(lines[j]) is None);
                }
            },
            None => {
                assert forall|j: int, other: Seq<char>| 0 <= j < lines.len() implies !#[trigger] carries(
                    j,
                    other,
                ) by {
                    assert(payload_of_line(lines[j]) is None);
                }
            },
        }
    }
}

/// What was forwarded is answered with the reply in what came back, what is answered here with
/// that, and nothing else with anything.
pub proof fn law_forwarded_request_gets_the_reply(
    url: Seq<char>,
    request: Seq<char>,
    reply: Seq<char>,
    body: Seq<char>,
)
    ensures
        final_reply(ProxyPlan::Forward { url, body: request }, Some(body)) == reply_in(body),
        final_reply(ProxyPlan::Forward { url, body: request }, None) is None,
        final_reply(ProxyPlan::Reply(reply), Some(body)) == Some(reply),
        final_reply(ProxyPlan::Reply(reply), None) == Some(reply),
        final_reply(ProxyPlan::Silent, Some(body)) is None,
        final_reply(ProxyPlan::Silent, None) is None,
{
}

/// A step, and what the daemon sent, stand for what they hold.
pub proof fn law_proxy_step_stands_for_what_it_holds(step: ProxyStep, body: Option<String>)
    ensures
        match step {
            ProxyStep::Silent => step@ is Silent,
            ProxyStep::Reply(reply) => step@ == ProxyPlan::Reply(reply@),
            ProxyStep::Forward { url, body } => step@ == (ProxyPlan::Forward {
                url: url@,
                body: body@,
            }),
        },
        match body {
            Some(text) => body_view(body) == Some(text@),
            None => body_view(body) is None,
        },
{
}

} // verus!
