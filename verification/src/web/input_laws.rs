//! Laws of what clients send: files, selections, texts and commands arrive as they were sent.

use vstd::prelude::*;
use crate::channels::{is_default_effort, is_effort, ControlView};
use crate::config::{can_chat, StellaclawConfig};
use crate::loaders::estimator::{keeps_in_name, safe_component};
use crate::number::decimal;
use crate::path_laws::joined_path_ends_in_the_name;
use crate::telegram::command::first_word;
use crate::text::{
    cut_is_at_the_first, is_char, is_space, lemma_position_is, mark, trimmed,
    trimming_drops_the_space_around,
};
use crate::web_terminal::RemoteView;
use crate::words::{
    is_one_word, join_seq, join_then_split, lower_seq, replace_seq, words_stand_between_spaces,
};
use super::control::{
    command_and_argument, control_of, effort_of, ingress_of, means_local, offers, web_control,
    web_remote_control, IngressView, PatchView,
};
use super::files::{
    data_file_name, data_media_type, data_url, extension_of_type, filename_component, incoming_dir,
    stated_file, strip_start, type_of_extension, type_of_file, type_of_path, FileView,
};
use super::selection::{
    cleaned, cleaned_field, cleaned_selection, is_complete, items_of_parts, kept_selections, sane,
    sane_selections, ItemView, LocatorView, SelectionView,
};

verus! {

/// Whether a text has no white space at its ends.
pub open spec fn is_tight(t: Seq<char>) -> bool {
    t.len() > 0 && !is_space(t[0]) && !is_space(t.last())
}

pub open spec fn all_space(t: Seq<char>) -> bool {
    forall|i: int| 0 <= i < t.len() ==> is_space(#[trigger] t[i])
}

proof fn lemma_tight(t: Seq<char>)
    requires
        is_tight(t),
    ensures
        trimmed(t) == t,
{
    let e = Seq::<char>::empty();
    trimming_drops_the_space_around(e, t, e);
    assert(e + t + e =~= t);
}

proof fn lemma_empty()
    ensures
        trimmed(Seq::<char>::empty()).len() == 0,
{
    let e = Seq::<char>::empty();
    trimming_drops_the_space_around(e, e, e);
    assert(e + e + e =~= e);
}

// ---------------------------------------------------------------------------
// Files
// ---------------------------------------------------------------------------
/// A data URL tells its media type and its payload; one that is not in base64, or that has no
/// payload, is refused.
pub proof fn data_url_is_type_and_payload(media_type: Seq<char>, payload: Seq<char>)
    requires
        is_tight(media_type),
        !media_type.contains(',') && !media_type.contains(';'),
        media_type != "base64"@,
    ensures
        data_url("data:"@ + media_type + ";base64,"@ + payload) == Ok::<
            (Option<Seq<char>>, Seq<char>),
            Seq<char>,
        >((Some(media_type), payload)),
        data_url("data:;base64,"@ + payload) == Ok::<(Option<Seq<char>>, Seq<char>), Seq<char>>(
            (None, payload),
        ),
        data_url("data:"@ + media_type + ","@ + payload) is Err,
        data_url("data:"@ + media_type) is Err,
{
    reveal_strlit("data:");
    reveal_strlit("data:;base64,");
    reveal_strlit(";base64,");
    reveal_strlit("base64");
    reveal_strlit(",");
    let t = media_type;
    lemma_tight(t);
    lemma_empty();
    // With a type.
    let m = t + seq![';'] + "base64"@;
    let head = "data:"@ + m;
    assert(!head.contains(',')) by {
        assert forall|i: int| 0 <= i < head.len() implies head[i] != ',' by {
            let k = i - 5;
            if k >= 0 && k < t.len() {
                assert(head[i] == t[k]);
            }
        }
    }
    cut_is_at_the_first(head, ',', payload);
    assert("data:"@ + t + ";base64,"@ + payload =~= head + seq![','] + payload);
    assert(head.subrange(0, 5) =~= "data:"@);
    assert(head.skip(5) =~= m);
    let parts = seq![t, "base64"@];
    assert(parts.drop_first() =~= seq!["base64"@]);
    assert(join_seq(seq!["base64"@], seq![';']) == "base64"@);
    assert(join_seq(parts, seq![';']) =~= m);
    join_then_split(parts, ';');
    assert(parts[1] == "base64"@);
    // Without a type.
    let e = Seq::<char>::empty();
    let m0 = seq![';'] + "base64"@;
    let head0 = "data:"@ + m0;
    cut_is_at_the_first(head0, ',', payload);
    assert("data:;base64,"@ + payload =~= head0 + seq![','] + payload);
    assert(head0.subrange(0, 5) =~= "data:"@);
    assert(head0.skip(5) =~= m0);
    let parts0 = seq![e, "base64"@];
    assert(parts0.drop_first() =~= seq!["base64"@]);
    assert(join_seq(parts0, seq![';']) =~= m0);
    join_then_split(parts0, ';');
    assert(parts0[1] == "base64"@);
    // Not in base64.
    let head1 = "data:"@ + t;
    assert(!head1.contains(',')) by {
        assert forall|i: int| 0 <= i < head1.len() implies head1[i] != ',' by {
            if i >= 5 {
                assert(head1[i] == t[i - 5]);
            }
        }
    }
    cut_is_at_the_first(head1, ',', payload);
    assert("data:"@ + t + ","@ + payload =~= head1 + seq![','] + payload);
    assert(head1.subrange(0, 5) =~= "data:"@);
    assert(head1.skip(5) =~= t);
    join_then_split(seq![t], ';');
    assert(join_seq(seq![t], seq![';']) == t);
    assert(!seq![t].contains("base64"@));
}

/// The media type of a file is the stated one, else that of its data URL, else the one that
/// its name tells.
pub proof fn stated_media_type_comes_first(
    stated: Seq<char>,
    in_url: Seq<char>,
    name: Option<Seq<char>>,
    uri: Seq<char>,
)
    requires
        is_tight(stated),
    ensures
        data_media_type(Some(stated), Some(in_url), name) == Some(stated),
        data_media_type(None, Some(in_url), name) == Some(in_url),
        data_media_type(None, None, name) == type_of_file(name, ""@),
        stated_file(uri, name, Some(stated)).media_type == Some(stated),
        stated_file(uri, name, None).media_type == type_of_file(name, uri),
        stated_file(uri, name, Some(stated)).uri == uri,
        stated_file(uri, name, Some(stated)).name == name,
{
    lemma_tight(stated);
}

proof fn lemma_extensions()
    ensures
        mark("png"@) == 116194307,
        mark("jpg"@) == 118291075,
        mark("webp"@) == 103685572,
        mark("gif"@) == 110942659,
        mark("pdf"@) == 105700355,
        mark("mp3"@) == 117865283,
        mark("ogg"@) == 108854211,
        mark("wav"@) == 102686147,
        mark("m4a"@) == 55327555,
        mark("flac"@) == 102529412,
        mark("mp4"@) == 117873475,
        mark("mov"@) == 117365571,
        mark("txt"@) == 126786819,
        mark("jpeg"@) == 106756740,
{
    reveal_strlit("png");
    reveal_strlit("jpg");
    reveal_strlit("webp");
    reveal_strlit("gif");
    reveal_strlit("pdf");
    reveal_strlit("mp3");
    reveal_strlit("ogg");
    reveal_strlit("wav");
    reveal_strlit("m4a");
    reveal_strlit("flac");
    reveal_strlit("mp4");
    reveal_strlit("mov");
    reveal_strlit("txt");
    reveal_strlit("jpeg");
}

proof fn lemma_types()
    ensures
        mark("image/png"@) == 106756681,
        mark("image/jpeg"@) == 50133578,
        mark("image/webp"@) == 50207306,
        mark("image/gif"@) == 106748489,
        mark("application/pdf"@) == 122476623,
        mark("audio/mpeg"@) == 50133066,
        mark("audio/ogg"@) == 117241929,
        mark("audio/wav"@) == 117364809,
        mark("audio/mp4"@) == 116824137,
        mark("audio/flac"@) == 50100298,
        mark("video/mp4"@) == 116825481,
        mark("video/quicktime"@) == 123518351,
        mark("text/plain"@) == 118349066,
{
    reveal_strlit("image/png");
    reveal_strlit("image/jpeg");
    reveal_strlit("image/webp");
    reveal_strlit("image/gif");
    reveal_strlit("application/pdf");
    reveal_strlit("audio/mpeg");
    reveal_strlit("audio/ogg");
    reveal_strlit("audio/wav");
    reveal_strlit("audio/mp4");
    reveal_strlit("audio/flac");
    reveal_strlit("video/mp4");
    reveal_strlit("video/quicktime");
    reveal_strlit("text/plain");
}

/// Extensions and media types name each other.
pub proof fn extensions_and_types_name_each_other()
    ensures
        type_of_extension("png"@) == Some("image/png"@),
        extension_of_type("image/png"@) == "png"@,
        type_of_extension("jpg"@) == Some("image/jpeg"@),
        extension_of_type("image/jpeg"@) == "jpg"@,
        type_of_extension("webp"@) == Some("image/webp"@),
        extension_of_type("image/webp"@) == "webp"@,
        type_of_extension("gif"@) == Some("image/gif"@),
        extension_of_type("image/gif"@) == "gif"@,
        type_of_extension("pdf"@) == Some("application/pdf"@),
        extension_of_type("application/pdf"@) == "pdf"@,
        type_of_extension("mp3"@) == Some("audio/mpeg"@),
        extension_of_type("audio/mpeg"@) == "mp3"@,
        type_of_extension("ogg"@) == Some("audio/ogg"@),
        extension_of_type("audio/ogg"@) == "ogg"@,
        type_of_extension("wav"@) == Some("audio/wav"@),
        extension_of_type("audio/wav"@) == "wav"@,
        type_of_extension("m4a"@) == Some("audio/mp4"@),
        extension_of_type("audio/mp4"@) == "m4a"@,
        type_of_extension("flac"@) == Some("audio/flac"@),
        extension_of_type("audio/flac"@) == "flac"@,
        type_of_extension("mp4"@) == Some("video/mp4"@),
        extension_of_type("video/mp4"@) == "mp4"@,
        type_of_extension("mov"@) == Some("video/quicktime"@),
        extension_of_type("video/quicktime"@) == "mov"@,
        type_of_extension("txt"@) == Some("text/plain"@),
        extension_of_type("text/plain"@) == "txt"@,
        type_of_extension("jpeg"@) == Some("image/jpeg"@),
{
    lemma_extensions();
    lemma_types();
}

/// A name that holds nothing but letters, digits, dashes and dots is kept as it is.
pub proof fn plain_name_is_kept(value: Seq<char>)
    requires
        value.len() > 0,
        forall|i: int| 0 <= i < value.len() ==> keeps_in_name(#[trigger] value[i]),
        value[0] != '_',
        value.last() != '_',
    ensures
        filename_component(value) == value,
{
    assert(safe_component(value) =~= value);
}

/// A file that came as text is kept below the conversation, under a name that tells the
/// message, its number in the message, counted from one, and its own name.
pub proof fn data_file_is_kept_by_message_and_number(
    root: Seq<char>,
    message_id: Seq<char>,
    index: nat,
    name: Seq<char>,
    media_type: Seq<char>,
)
    requires
        root.len() > 0,
        root.last() != '/',
    ensures
        data_file_name(message_id, index, Some(name), Some(media_type)) == filename_component(
            message_id,
        ) + "-"@ + decimal(index + 1) + "-"@ + filename_component(name),
        data_file_name(message_id, index, None, Some(media_type)) == filename_component(message_id)
            + "-"@ + decimal(index + 1) + "-"@ + filename_component(
            "attachment-"@ + decimal(index + 1) + "."@ + extension_of_type(media_type),
        ),
        incoming_dir(root) == root + "/.stellaclaw/attachments/incoming"@,
{
    reveal_strlit(".stellaclaw");
    reveal_strlit("attachments");
    reveal_strlit("incoming");
    reveal_strlit("/.stellaclaw/attachments/incoming");
    joined_path_ends_in_the_name(root, ".stellaclaw"@);
    let a = root + seq!['/'] + ".stellaclaw"@;
    joined_path_ends_in_the_name(a, "attachments"@);
    let b = a + seq!['/'] + "attachments"@;
    joined_path_ends_in_the_name(b, "incoming"@);
    assert(b + seq!['/'] + "incoming"@ =~= root + "/.stellaclaw/attachments/incoming"@);
}

// ---------------------------------------------------------------------------
// Selections
// ---------------------------------------------------------------------------
proof fn lemma_no_nul(t: Seq<char>)
    requires
        !t.contains('\0'),
    ensures
        replace_seq(t, '\0', ""@) == t,
    decreases t.len(),
{
    if t.len() > 0 {
        let rest = t.drop_last();
        assert(t.contains(t.last()));
        assert(!rest.contains('\0')) by {
            if rest.contains('\0') {
                let i = choose|i: int| 0 <= i < rest.len() && rest[i] == '\0';
                assert(t[i] == '\0');
            }
        }
        lemma_no_nul(rest);
        assert(rest + seq![t.last()] =~= t);
    } else {
        assert(replace_seq(t, '\0', ""@) =~= t);
    }
}

/// A text of a selection is kept, without white space around it, up to its bound.
pub proof fn selected_text_is_kept(a: Seq<char>, t: Seq<char>, b: Seq<char>, max: int)
    requires
        all_space(a),
        all_space(b),
        is_tight(t),
        !t.contains('\0'),
        max > 0,
    ensures
        t.len() <= max ==> cleaned(a + t + b, max) == t && cleaned_field(Some(a + t + b), max)
            == Some(t),
        t.len() > max ==> cleaned(a + t + b, max) == t.take(max),
        cleaned_field(Some(a), max) is None,
        cleaned_field(None, max) is None,
{
    trimming_drops_the_space_around(a, t, b);
    lemma_no_nul(t);
    let e = Seq::<char>::empty();
    trimming_drops_the_space_around(a, e, e);
    assert(a + e + e =~= a);
    assert(replace_seq(e, '\0', ""@) =~= e);
}

/// A selection keeps the text, the file and the length that it states; the path of the file
/// loses the slashes in front.
pub proof fn selection_keeps_what_it_says(
    s: SelectionView,
    slashes: Seq<char>,
    path: Seq<char>,
    kind: Seq<char>,
    locator_kind: Seq<char>,
)
    requires
        s.file_path == slashes + path,
        forall|i: int| 0 <= i < slashes.len() ==> #[trigger] slashes[i] == '/',
        is_tight(path) && path[0] != '/' && !path.contains('\0'),
        slashes.len() + path.len() <= 512,
        is_tight(s.selected_text) && !s.selected_text.contains('\0'),
        s.selected_text.len() <= 4000,
        is_tight(kind) && !kind.contains('\0') && kind.len() <= 180,
    ensures
        ({
            let c = cleaned_selection(s, kind, locator_kind);
            &&& c.file_path == path
            &&& c.selected_text == s.selected_text
            &&& c.source_kind == kind
            &&& c.original_text_length == (match s.original_text_length {
                Some(n) => Some(n),
                None => Some(s.selected_text.len() as u32),
            })
            &&& c.locator is Some <==> s.locator is Some
            &&& c.context is Some <==> s.context is Some
            &&& is_complete(c)
        }),
{
    let e = Seq::<char>::empty();
    let p = slashes + path;
    assert(!is_space('/'));
    assert(is_tight(p)) by {
        if slashes.len() > 0 {
            assert(slashes[0] == '/');
        }
    }
    assert(!p.contains('\0')) by {
        assert forall|i: int| 0 <= i < p.len() implies p[i] != '\0' by {
            if i < slashes.len() {
                assert(slashes[i] == '/');
            } else {
                assert(p[i] == path[i - slashes.len()]);
            }
        }
    }
    selected_text_is_kept(e, p, e, 512);
    assert(e + p + e =~= p);
    lemma_strip_slashes(slashes, path);
    selected_text_is_kept(e, s.selected_text, e, 4000);
    assert(e + s.selected_text + e =~= s.selected_text);
    selected_text_is_kept(e, kind, e, 180);
    assert(e + kind + e =~= kind);
    lemma_tight(s.selected_text);
}

proof fn lemma_strip_slashes(slashes: Seq<char>, path: Seq<char>)
    requires
        forall|i: int| 0 <= i < slashes.len() ==> #[trigger] slashes[i] == '/',
        path.len() > 0 && path[0] != '/',
    ensures
        strip_start(slashes + path, '/') == path,
    decreases slashes.len(),
{
    if slashes.len() == 0 {
        assert(slashes + path =~= path);
    } else {
        assert(slashes[0] == '/');
        assert((slashes + path).skip(1) =~= slashes.skip(1) + path);
        lemma_strip_slashes(slashes.skip(1), path);
    }
}

/// The first eight selections are kept, in order, but for those that say too little.
pub proof fn first_selections_are_kept(s: Seq<SelectionView>, n: int)
    requires
        0 <= n <= s.len(),
        forall|i: int| 0 <= i < s.len() ==> is_complete(sane(#[trigger] s[i])),
    ensures
        sane_selections(s, n) == Seq::new(n as nat, |i: int| sane(s[i])),
        s.len() <= 8 ==> kept_selections(s) == sane_selections(s, s.len() as int),
        s.len() > 8 ==> kept_selections(s) == sane_selections(s, 8),
    decreases n,
{
    let f = |i: int| sane(s[i]);
    if n > 0 {
        first_selections_are_kept(s, n - 1);
        assert(is_complete(sane(s[n - 1])));
        assert(Seq::new(n as nat, f) =~= Seq::new((n - 1) as nat, f).push(f(n - 1)));
    } else {
        assert(sane_selections(s, 0) =~= Seq::new(0, f));
    }
}

/// A message holds its text first, then the selections, then the files, each in order.
pub proof fn message_holds_all_its_parts(
    text: Seq<char>,
    selections: Seq<SelectionView>,
    files: Seq<FileView>,
    i: int,
    j: int,
)
    requires
        0 <= i < selections.len(),
        0 <= j < files.len(),
    ensures
        ({
            let with = items_of_parts(Some(text), selections, files);
            let without = items_of_parts(None, selections, files);
            &&& with.len() == 1 + selections.len() + files.len()
            &&& with[0] == ItemView::Text(text)
            &&& with[1 + i] == ItemView::Selection(selections[i])
            &&& with[1 + selections.len() + j] == ItemView::File(files[j])
            &&& without.len() == selections.len() + files.len()
            &&& without[i] == ItemView::Selection(selections[i])
            &&& without[selections.len() + j] == ItemView::File(files[j])
        }),
{
}

// ---------------------------------------------------------------------------
// Commands
// ---------------------------------------------------------------------------
proof fn lemma_commands()
    ensures
        mark("/continue"@) == 122465225,
        mark("/cancel"@) == 116231111,
        mark("/compact"@) == 118393800,
        mark("/status"@) == 102656967,
        mark("/model"@) == 105745350,
        mark("/reasoning"@) == 117238730,
        mark("/remote"@) == 115125191,
        mark("/sandbox"@) == 105843656,
{
    reveal_strlit("/continue");
    reveal_strlit("/cancel");
    reveal_strlit("/compact");
    reveal_strlit("/status");
    reveal_strlit("/model");
    reveal_strlit("/reasoning");
    reveal_strlit("/remote");
    reveal_strlit("/sandbox");
}

proof fn lemma_local_words()
    ensures
        mark("off"@) == 107797443,
        mark("disable"@) == 102545671,
        mark("disabled"@) == 103586056,
        mark("local"@) == 104700677,
{
    reveal_strlit("off");
    reveal_strlit("disable");
    reveal_strlit("disabled");
    reveal_strlit("local");
}

/// A text that starts with a slash is a command with an argument; another text is none.
pub proof fn command_and_argument_are_read(
    before: Seq<char>,
    command: Seq<char>,
    bot: Seq<char>,
    space: char,
    argument: Seq<char>,
    after: Seq<char>,
)
    requires
        all_space(before),
        all_space(after),
        is_space(space),
        is_one_word(command),
        is_one_word(bot),
        command[0] == '/',
        !command.contains('@'),
        is_tight(argument),
    ensures
        command_and_argument(before + command + after) == Some((command, Seq::<char>::empty())),
        command_and_argument(before + (command + seq![space] + argument) + after) == Some(
            (command, argument),
        ),
        command_and_argument(before + (command + seq!['@'] + bot) + after) == Some(
            (command, Seq::<char>::empty()),
        ),
        argument[0] != '/' ==> command_and_argument(before + argument + after) is None,
{
    reveal_strlit("/");
    let e = Seq::<char>::empty();
    let named = command + seq!['@'] + bot;
    let full = command + seq![space] + argument;
    let q = |x: char| is_space(x);
    let n = command.len() - 1;
    assert(!is_space(command[0]) && !is_space(command[n]));
    let k = bot.len() - 1;
    assert(!is_space(bot[k]));
    assert forall|i: int| 0 <= i < named.len() implies !is_space(#[trigger] named[i]) by {
        if i < command.len() {
            assert(named[i] == command[i]);
        } else if i > command.len() {
            assert(named[i] == bot[i - command.len() - 1]);
        }
    }
    trimming_drops_the_space_around(before, command, after);
    trimming_drops_the_space_around(before, full, after);
    trimming_drops_the_space_around(before, named, after);
    trimming_drops_the_space_around(before, argument, after);
    assert(command.subrange(0, 1) =~= "/"@);
    assert(full.subrange(0, 1) =~= "/"@);
    assert(named.subrange(0, 1) =~= "/"@);
    lemma_position_is(command, q, command.len() as int);
    lemma_position_is(full, q, command.len() as int);
    assert(full.take(command.len() as int) =~= command);
    assert(full.skip(command.len() as int + 1) =~= argument);
    lemma_position_is(named, q, named.len() as int);
    lemma_position_is(command, is_char('@'), command.len() as int);
    assert(command.take(command.len() as int) =~= command);
    lemma_position_is(named, is_char('@'), command.len() as int);
    assert(named.take(command.len() as int) =~= command);
    lemma_tight(command);
    lemma_tight(argument);
    lemma_empty();
    assert(trimmed(e) =~= e);
    if argument[0] != '/' && "/"@.is_prefix_of(argument) {
        assert(argument.subrange(0, 1)[0] == '/');
    }
}

/// Each command does to the session what its name says; a model has to be known, and a
/// remote is a host and a path.
pub proof fn commands_do_what_they_name(
    has_model: spec_fn(Seq<char>) -> bool,
    argument: Seq<char>,
    host: Seq<char>,
    path: Seq<char>,
    session: Option<Seq<char>>,
)
    requires
        argument.len() > 0,
        is_one_word(host),
        is_one_word(path),
    ensures
        ({
            let none = Seq::<char>::empty();
            &&& control_of(has_model, "/continue"@, none, session) == Ok::<_, Seq<char>>(
                Some(IngressView::Continue(session, Some("web requested continue"@))),
            )
            &&& control_of(has_model, "/cancel"@, none, session) == Ok::<_, Seq<char>>(
                Some(IngressView::Cancel(session, Some("web requested cancel"@))),
            )
            &&& control_of(has_model, "/compact"@, none, session) == Ok::<_, Seq<char>>(
                Some(IngressView::Compact(session)),
            )
            &&& control_of(has_model, "/status"@, none, session) == Ok::<_, Seq<char>>(
                Some(IngressView::Query(session)),
            )
            &&& control_of(has_model, "/model"@, none, session) == Ok::<_, Seq<char>>(
                Some(IngressView::Query(session)),
            )
            &&& control_of(has_model, "/continue"@, argument, session) == Ok::<_, Seq<char>>(
                None::<IngressView>,
            )
            &&& has_model(argument) ==> control_of(has_model, "/model"@, argument, session) == Ok::<
                _,
                Seq<char>,
            >(Some(IngressView::Update(PatchView::Model(argument))))
            &&& !has_model(argument) ==> control_of(has_model, "/model"@, argument, session) is Err
            &&& control_of(has_model, "/remote"@, "off"@, session) == Ok::<_, Seq<char>>(
                Some(IngressView::Update(PatchView::Remote(RemoteView::Selectable))),
            )
            &&& control_of(has_model, "/remote"@, host + " "@ + path, session) == Ok::<
                _,
                Seq<char>,
            >(
                Some(
                    IngressView::Update(
                        PatchView::Remote(RemoteView::FixedSsh { host, cwd: Some(path) }),
                    ),
                ),
            )
            &&& control_of(has_model, "/sandbox"@, argument, session) is Err
        }),
{
    lemma_commands();
    lemma_local_words();
    reveal_strlit(" ");
    reveal_strlit("off");
    let parts = seq![host, path];
    let e = Seq::<char>::empty();
    assert(parts.drop_first() =~= seq![path]);
    assert(join_seq(seq![path], " "@) == path);
    assert(join_seq(parts, " "@) == host + " "@ + path);
    assert forall|i: int| 0 <= i < parts.len() implies is_one_word(#[trigger] parts[i]) by {}
    words_stand_between_spaces(parts, e);
    let a = host + " "@ + path;
    assert(e + a =~= a);
    assert(a[host.len() as int] == ' ');
    assert(!means_local(a)) by {
        let k = host.len() as int;
        assert(a.len() >= 3);
        if a == "off"@ {
            reveal_strlit("off");
            assert("off"@[0] != ' ' && "off"@[1] != ' ' && "off"@[2] != ' ');
            assert("off"@[k] != ' ');
        }
        if a == "disable"@ {
            reveal_strlit("disable");
            assert("disable"@[0] != ' ' && "disable"@[1] != ' ' && "disable"@[2] != ' ' && "disable"@[3] != ' ' && "disable"@[4] != ' ' && "disable"@[5] != ' ' && "disable"@[6] != ' ');
            assert("disable"@[k] != ' ');
        }
        if a == "disabled"@ {
            reveal_strlit("disabled");
            assert("disabled"@[0] != ' ' && "disabled"@[1] != ' ' && "disabled"@[2] != ' ' && "disabled"@[3] != ' ' && "disabled"@[4] != ' ' && "disabled"@[5] != ' ' && "disabled"@[6] != ' ' && "disabled"@[7] != ' ');
            assert("disabled"@[k] != ' ');
        }
        if a == "local"@ {
            reveal_strlit("local");
            assert("local"@[0] != ' ' && "local"@[1] != ' ' && "local"@[2] != ' ' && "local"@[3] != ' ' && "local"@[4] != ' ');
            assert("local"@[k] != ' ');
        }
    }
}

/// The effort is set to one of its levels, or back to that of the model.
pub proof fn effort_is_one_of_the_levels(w: Seq<char>)
    requires
        is_tight(w),
    ensures
        is_effort(lower_seq(w)) && !is_default_effort(lower_seq(w)) && lower_seq(w) != "show"@
            ==> effort_of(w) == Ok::<Option<Seq<char>>, Seq<char>>(Some(lower_seq(w))),
        is_default_effort(lower_seq(w)) ==> effort_of(w) == Ok::<Option<Seq<char>>, Seq<char>>(
            None,
        ),
        !is_effort(lower_seq(w)) && !is_default_effort(lower_seq(w)) && lower_seq(w) != "show"@
            ==> effort_of(w) is Err,
{
    lemma_tight(w);
}

/// A model can be switched to where it is configured, offered and can chat; the other
/// commands are passed on as what they are.
pub proof fn controls_are_passed_on(
    config: StellaclawConfig,
    name: Seq<char>,
    host: Seq<char>,
    path: Seq<char>,
    effort: Option<Seq<char>>,
)
    ensures
        config.models@.contains_key(name) && offers(config, name) && can_chat(
            config.models@[name]@,
        ) ==> ingress_of(config, ControlView::SwitchModel { model_name: name }) == Ok::<
            IngressView,
            Seq<char>,
        >(IngressView::Update(PatchView::Model(name))),
        !config.models@.contains_key(name) || !offers(config, name) || !can_chat(
            config.models@[name]@,
        ) ==> ingress_of(config, ControlView::SwitchModel { model_name: name }) is Err,
        ingress_of(config, ControlView::SetReasoning { effort }) == Ok::<IngressView, Seq<char>>(
            IngressView::Update(PatchView::Effort(effort)),
        ),
        ingress_of(config, ControlView::SetRemote { host, path }) == Ok::<IngressView, Seq<char>>(
            IngressView::Update(
                PatchView::Remote(RemoteView::FixedSsh { host, cwd: Some(path) }),
            ),
        ),
        ingress_of(config, ControlView::DisableRemote) == Ok::<IngressView, Seq<char>>(
            IngressView::Update(PatchView::Remote(RemoteView::Selectable)),
        ),
        ingress_of(config, ControlView::Continue) matches Ok(IngressView::Continue(None, _)),
        ingress_of(config, ControlView::Cancel) matches Ok(IngressView::Cancel(None, _)),
        ingress_of(config, ControlView::Compact) == Ok::<IngressView, Seq<char>>(
            IngressView::Compact(None),
        ),
        ingress_of(config, ControlView::ShowStatus) == Ok::<IngressView, Seq<char>>(
            IngressView::Query(None),
        ),
{
}

/// A command that is sent as a message asks for what its name says.
pub proof fn sent_commands_ask_for_what_they_name(argument: Seq<char>, space: char)
    requires
        is_tight(argument),
        is_space(space),
    ensures
        web_control("/continue"@) == Some(ControlView::Continue),
        web_control("/cancel"@) == Some(ControlView::Cancel),
        web_control("/compact"@) == Some(ControlView::Compact),
        web_control("/status"@) == Some(ControlView::ShowStatus),
        web_control("/model"@) == Some(ControlView::ShowModel),
        web_control("/remote"@) == Some(ControlView::ShowRemote),
        web_control("/model"@ + seq![space] + argument) == Some(
            ControlView::SwitchModel { model_name: argument },
        ),
        web_control("/cancel"@ + seq![space] + argument) is None,
        argument[0] != '/' ==> web_control(argument) is None,
{
    lemma_commands();
    lemma_empty();
    lemma_tight(argument);
    let q = |x: char| is_space(x);
    reveal_strlit("/continue");
    lemma_position_is("/continue"@, q, "/continue"@.len() as int);
    reveal_strlit("/cancel");
    lemma_position_is("/cancel"@, q, "/cancel"@.len() as int);
    reveal_strlit("/compact");
    lemma_position_is("/compact"@, q, "/compact"@.len() as int);
    reveal_strlit("/status");
    lemma_position_is("/status"@, q, "/status"@.len() as int);
    reveal_strlit("/model");
    lemma_position_is("/model"@, q, "/model"@.len() as int);
    reveal_strlit("/remote");
    lemma_position_is("/remote"@, q, "/remote"@.len() as int);
    let m = "/model"@ + seq![space] + argument;
    lemma_position_is(m, q, 6);
    assert(m.take(6) =~= "/model"@);
    assert(m.skip(7) =~= argument);
    let c = "/cancel"@ + seq![space] + argument;
    lemma_position_is(c, q, 7);
    assert(c.take(7) =~= "/cancel"@);
    assert(c.skip(8) =~= argument);
    if argument[0] != '/' {
        reveal_strlit("/reasoning");
        crate::text::lemma_position(argument, q);
        let w = first_word(argument).0;
        assert(w.len() > 0 && w[0] == argument[0]);
    }
}

/// A field that is kept as it is: it has no white space at its ends and keeps its bound.
pub open spec fn is_plain_field(t: Option<Seq<char>>, max: int) -> bool {
    t matches Some(v) ==> is_tight(v) && !v.contains('\0') && v.len() <= max
}

proof fn lemma_plain_field(t: Option<Seq<char>>, max: int)
    requires
        is_plain_field(t, max),
        max > 0,
    ensures
        cleaned_field(t, max) == t,
{
    if let Some(v) = t {
        let e = Seq::<char>::empty();
        selected_text_is_kept(e, v, e, max);
        assert(e + v + e =~= v);
    }
}

/// A selection keeps the name and the type of its file, the place it was made at, and what
/// stands before and behind it.
pub proof fn place_of_a_selection_is_kept(
    s: SelectionView,
    l: LocatorView,
    before: Option<Seq<char>>,
    behind: Option<Seq<char>>,
    kind: Seq<char>,
    locator_kind: Seq<char>,
)
    requires
        s.locator == Some(l),
        s.context == Some((before, behind)),
        is_plain_field(s.file_name, 180) && is_plain_field(s.media_type, 180),
        is_plain_field(l.heading, 180) && is_plain_field(l.selector, 180),
        is_plain_field(l.xpath, 180) && is_plain_field(l.block_id, 180),
        is_plain_field(l.anchor_text, 180) && is_plain_field(Some(locator_kind), 180),
        is_plain_field(before, 800) && is_plain_field(behind, 800),
        l.rects.len() <= 16,
    ensures
        ({
            let c = cleaned_selection(s, kind, locator_kind);
            &&& c.file_name == s.file_name
            &&& c.media_type == s.media_type
            &&& c.context == Some((before, behind))
            &&& c.locator is Some
            &&& c.locator->0.kind == locator_kind
            &&& c.locator->0.heading == l.heading
            &&& c.locator->0.selector == l.selector
            &&& c.locator->0.xpath == l.xpath
            &&& c.locator->0.block_id == l.block_id
            &&& c.locator->0.anchor_text == l.anchor_text
            &&& c.locator->0.rects == l.rects
        }),
{
    lemma_plain_field(s.file_name, 180);
    lemma_plain_field(s.media_type, 180);
    lemma_plain_field(l.heading, 180);
    lemma_plain_field(l.selector, 180);
    lemma_plain_field(l.xpath, 180);
    lemma_plain_field(l.block_id, 180);
    lemma_plain_field(l.anchor_text, 180);
    lemma_plain_field(before, 800);
    lemma_plain_field(behind, 800);
    let e = Seq::<char>::empty();
    selected_text_is_kept(e, locator_kind, e, 180);
    assert(e + locator_kind + e =~= locator_kind);
}

/// A remote is a host and a path behind it; these words switch back to working locally.
pub proof fn remote_is_host_and_path(host: Seq<char>, space: char, path: Seq<char>)
    requires
        is_one_word(host),
        is_space(space),
        is_tight(path),
    ensures
        web_remote_control(host + seq![space] + path) == (ControlView::SetRemote { host, path }),
        web_remote_control(host) is InvalidRemote,
        means_local("off"@) && means_local("disable"@) && means_local("disabled"@) && means_local(
            "local"@,
        ),
{
    let e = Seq::<char>::empty();
    let s = host + seq![space] + path;
    let p = |x: char| is_space(x);
    assert(!is_space(host[0]) && !is_space(host[host.len() - 1]));
    assert(s.last() == path.last());
    lemma_tight(s);
    lemma_tight(host);
    lemma_tight(path);
    lemma_position_is(s, p, host.len() as int);
    assert(s.take(host.len() as int) =~= host);
    assert(s.skip(host.len() as int + 1) =~= path);
    lemma_position_is(host, p, host.len() as int);
    lemma_empty();
}

/// The name of a file tells its type; where it does not, its place does.
pub proof fn name_tells_the_type_before_the_place(name: Seq<char>, uri: Seq<char>)
    ensures
        type_of_path(name) is Some ==> type_of_file(Some(name), uri) == type_of_path(name),
        type_of_path(name) is None ==> type_of_file(Some(name), uri) == type_of_path(uri),
        type_of_file(None, uri) == type_of_path(uri),
{
}

} // verus!
