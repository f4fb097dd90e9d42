//! The arguments of the workflow runtime.
use crate::composer::decl::opt_text;
use crate::json::{Fields, Json, JsonView};
use crate::outside::{json_parsed, parse_json};
use crate::text::{parse_u64, parsed_u64, same_text, texts, texts_push};
use vstd::prelude::*;

verus! {

/// The arguments of the runtime: its database, who may do what, and what is
/// left.
pub struct WorkflowArgs {
    pub db: String,
    pub authority: String,
    pub rest: Vec<String>,
}

/// What the arguments say so far.
#[verifier::ext_equal]
pub struct ArgsView {
    pub db: Option<Seq<char>>,
    pub authority: Option<Seq<char>>,
    pub rest: Seq<Seq<char>>,
}

pub const NO_DB_VALUE: &'static str = "Missing value for --db";

pub const NO_AUTHORITY_VALUE: &'static str = "Missing value for --authority";

pub const NO_DB: &'static str = "Specify --db PATH";

pub const NO_AUTHORITY: &'static str = "Specify --authority FILE";

/// What the arguments say, from one of them on. What is neither the database
/// nor the authority is left, with the argument that follows it.
pub open spec fn read_args(args: Seq<Seq<char>>, from: nat, so_far: ArgsView) -> Result<
    ArgsView,
    Seq<char>,
>
    decreases args.len() + 1 - from,
{
    if from >= args.len() {
        Ok(so_far)
    } else {
        let flag = args[from as int];
        let last = from + 1 >= args.len();
        if flag == "--db"@ {
            if last {
                Err(NO_DB_VALUE@)
            } else {
                read_args(
                    args,
                    from + 2,
                    ArgsView { db: Some(args[from as int + 1]), ..so_far },
                )
            }
        } else if flag == "--authority"@ {
            if last {
                Err(NO_AUTHORITY_VALUE@)
            } else {
                read_args(
                    args,
                    from + 2,
                    ArgsView { authority: Some(args[from as int + 1]), ..so_far },
                )
            }
        } else if last {
            Ok(ArgsView { rest: so_far.rest.push(flag), ..so_far })
        } else {
            read_args(
                args,
                from + 2,
                ArgsView { rest: so_far.rest.push(flag).push(args[from as int + 1]), ..so_far },
            )
        }
    }
}

/// The arguments of the runtime, or the message of a `SCHEMA_INVALID` error.
pub open spec fn workflow_args(args: Seq<Seq<char>>) -> Result<
    (Seq<char>, Seq<char>, Seq<Seq<char>>),
    Seq<char>,
> {
    match read_args(args, 0, ArgsView { db: None, authority: None, rest: Seq::empty() }) {
        Err(e) => Err(e),
        Ok(a) => match a.db {
            None => Err(NO_DB@),
            Some(db) => match a.authority {
                None => Err(NO_AUTHORITY@),
                Some(authority) => Ok((db, authority, a.rest)),
            },
        },
    }
}

/// Reads the arguments of the runtime.
pub fn parse_workflow(args: &Vec<String>) -> (out: Result<WorkflowArgs, String>)
    ensures
        match out {
            Ok(a) => workflow_args(texts(args@)) == Ok::<
                (Seq<char>, Seq<char>, Seq<Seq<char>>),
                Seq<char>,
            >((a.db@, a.authority@, texts(a.rest@))),
            Err(e) => workflow_args(texts(args@)) == Err::<
                (Seq<char>, Seq<char>, Seq<Seq<char>>),
                Seq<char>,
            >(e@),
        },
{
    broadcast use texts_push;

    let ghost views = texts(args@);
    let ghost empty = ArgsView { db: None, authority: None, rest: Seq::empty() };
    let n: usize = args.len();
    let mut db: Option<String> = None;
    let mut authority: Option<String> = None;
    let mut rest: Vec<String> = Vec::new();
    let mut i: usize = 0;
    assert(views.len() == n);
    assert(texts(rest@) =~= Seq::<Seq<char>>::empty());
    while i < n
        invariant
            i <= n,
            n == args@.len(),
            views == texts(args@),
            views.len() == n,
            empty == (ArgsView { db: None, authority: None, rest: Seq::empty() }),
            read_args(views, 0, empty) == read_args(
                views,
                i as nat,
                ArgsView { db: opt_text(db), authority: opt_text(authority), rest: texts(rest@) },
            ),
        decreases n - i,
    {
        assert(views[i as int] == args@[i as int]@);
        let flag: &str = args[i].as_str();
        let last: bool = n - i < 2;
        if !last {
            assert(views[i + 1] == args@[i + 1]@);
        }
        if same_text(flag, "--db") {
            if last {
                return Err(NO_DB_VALUE.to_owned());
            }
            db = Some(args[i + 1].clone());
            i += 2;
        } else if same_text(flag, "--authority") {
            if last {
                return Err(NO_AUTHORITY_VALUE.to_owned());
            }
            authority = Some(args[i + 1].clone());
            i += 2;
        } else {
            let ghost before = texts(rest@);
            rest.push(args[i].clone());
            assert(texts(rest@) =~= before.push(views[i as int]));
            if last {
                i += 1;
            } else {
                rest.push(args[i + 1].clone());
                assert(texts(rest@) =~= before.push(views[i as int]).push(views[i + 1]));
                i += 2;
            }
        }
    }
    match db {
        None => Err(NO_DB.to_owned()),
        Some(db) => match authority {
            None => Err(NO_AUTHORITY.to_owned()),
            Some(authority) => Ok(WorkflowArgs { db, authority, rest }),
        },
    }
}

/// What follows the first of the arguments, from one of them on, that is a
/// name.
pub open spec fn flag_value(rest: Seq<Seq<char>>, name: Seq<char>, from: nat) -> Option<Seq<char>>
    decreases rest.len() - from,
{
    if from >= rest.len() {
        None
    } else if rest[from as int] == name {
        if from + 1 < rest.len() {
            Some(rest[from as int + 1])
        } else {
            None
        }
    } else {
        flag_value(rest, name, from + 1)
    }
}

pub open spec fn unspecified(name: Seq<char>) -> Seq<char> {
    "Specify "@ + name
}

fn say_unspecified(name: &str) -> (out: String)
    ensures
        out@ == unspecified(name@),
{
    let mut out: String = "Specify ".to_owned();
    out.append(name);
    out
}

pub open spec fn not_a_number(name: Seq<char>) -> Seq<char> {
    name + " must be a number"@
}

fn say_not_a_number(name: &str) -> (out: String)
    ensures
        out@ == not_a_number(name@),
{
    let mut out: String = name.to_owned();
    out.append(" must be a number");
    out
}

/// The value of an option that must be given.
pub open spec fn required(rest: Seq<Seq<char>>, name: Seq<char>) -> Result<Seq<char>, Seq<char>> {
    match flag_value(rest, name, 0) {
        Some(v) => Ok(v),
        None => Err(unspecified(name)),
    }
}

/// The number that an option that must be given says.
pub open spec fn required_number(rest: Seq<Seq<char>>, name: Seq<char>) -> Result<nat, Seq<char>> {
    match required(rest, name) {
        Err(e) => Err(e),
        Ok(v) => match parsed_u64(v) {
            Some(n) => Ok(n),
            None => Err(not_a_number(name)),
        },
    }
}

fn find_flag(rest: &Vec<String>, name: &str) -> (out: Option<String>)
    ensures
        opt_text(out) == flag_value(texts(rest@), name@, 0),
{
    let ghost views = texts(rest@);
    let n: usize = rest.len();
    let mut i: usize = 0;
    assert(views.len() == n);
    while i < n
        invariant
            i <= n,
            n == rest@.len(),
            views == texts(rest@),
            views.len() == n,
            flag_value(views, name@, 0) == flag_value(views, name@, i as nat),
        decreases n - i,
    {
        assert(views[i as int] == rest@[i as int]@);
        if same_text(rest[i].as_str(), name) {
            if n - i >= 2 {
                assert(views[i + 1] == rest@[i + 1]@);
                return Some(rest[i + 1].clone());
            }
            return None;
        }
        i += 1;
    }
    None
}

/// The value of an option that must be given.
pub fn required_flag(rest: &Vec<String>, name: &str) -> (out: Result<String, String>)
    ensures
        match out {
            Ok(v) => required(texts(rest@), name@) == Ok::<Seq<char>, Seq<char>>(v@),
            Err(e) => required(texts(rest@), name@) == Err::<Seq<char>, Seq<char>>(e@),
        },
{
    match find_flag(rest, name) {
        Some(v) => Ok(v),
        None => Err(say_unspecified(name)),
    }
}

/// The number that an option that must be given says.
pub fn number(rest: &Vec<String>, name: &str) -> (out: Result<u64, String>)
    ensures
        match out {
            Ok(v) => required_number(texts(rest@), name@) == Ok::<nat, Seq<char>>(v as nat),
            Err(e) => required_number(texts(rest@), name@) == Err::<nat, Seq<char>>(e@),
        },
{
    match required_flag(rest, name) {
        Err(e) => Err(e),
        Ok(v) => match parse_u64(v.as_str()) {
            Some(n) => Ok(n),
            None => Err(say_not_a_number(name)),
        },
    }
}

pub const WORKFLOW_USAGE: &'static str = "Usage: nirdosha-hi workflow \
    <capabilities|deploy|install-mapping|issue-credential|start|event|instance|outbox|claim-outbox|complete-outbox|reconcile-outbox|migrate-instance> \
    --db PATH --authority FILE ...";

/// An option of an action: its name, and whether it says a number.
pub struct ActionFlag {
    pub name: String,
    pub number: bool,
}

/// What an action asks of its options: a number that is read first, a file that
/// is read next, and what is read after the file, in that order.
pub struct ActionShape {
    pub first: Option<String>,
    pub file: Option<String>,
    pub flags: Vec<ActionFlag>,
}

#[verifier::ext_equal]
pub struct ShapeView {
    pub first: Option<Seq<char>>,
    pub file: Option<Seq<char>>,
    pub flags: Seq<(Seq<char>, bool)>,
}

pub open spec fn flag_views(flags: Seq<ActionFlag>) -> Seq<(Seq<char>, bool)> {
    flags.map_values(|f: ActionFlag| (f.name@, f.number))
}

impl View for ActionShape {
    type V = ShapeView;

    open spec fn view(&self) -> ShapeView {
        ShapeView {
            first: opt_text(self.first),
            file: opt_text(self.file),
            flags: flag_views(self.flags@),
        }
    }
}

/// What each action asks of its options.
pub open spec fn shape_of(action: Seq<char>) -> Option<ShapeView> {
    if action == "capabilities"@ {
        Some(ShapeView { first: None, file: None, flags: Seq::empty() })
    } else if action == "deploy"@ {
        Some(ShapeView { first: None, file: Some("--state"@), flags: Seq::empty() })
    } else if action == "install-mapping"@ {
        Some(ShapeView { first: None, file: Some("--mapping"@), flags: Seq::empty() })
    } else if action == "issue-credential"@ {
        Some(ShapeView { first: None, file: None, flags: seq![("--issuer"@, false), ("--tenant"@, false), ("--subject"@, false), ("--expires"@, true)] })
    } else if action == "start"@ {
        Some(ShapeView { first: None, file: Some("--data"@), flags: seq![("--definition"@, false), ("--workflow"@, false), ("--credential"@, false), ("--key"@, false)] })
    } else if action == "event"@ {
        Some(ShapeView { first: None, file: Some("--event"@), flags: seq![("--credential"@, false)] })
    } else if action == "instance"@ {
        Some(ShapeView { first: None, file: None, flags: seq![("--id"@, false)] })
    } else if action == "outbox"@ {
        Some(ShapeView { first: None, file: None, flags: seq![("--instance"@, false)] })
    } else if action == "claim-outbox"@ {
        Some(ShapeView { first: None, file: None, flags: seq![("--lease-seconds"@, true)] })
    } else if action == "complete-outbox"@ {
        Some(ShapeView { first: None, file: Some("--evidence"@), flags: seq![("--id"@, false), ("--token"@, false), ("--outcome"@, false)] })
    } else if action == "reconcile-outbox"@ {
        Some(ShapeView { first: None, file: Some("--evidence"@), flags: seq![("--id"@, false), ("--outcome"@, false)] })
    } else if action == "migrate-instance"@ {
        Some(ShapeView { first: Some("--expected-revision"@), file: Some("--data"@), flags: seq![("--key"@, false), ("--instance"@, false), ("--definition"@, false), ("--workflow"@, false), ("--target"@, false), ("--operator-credential"@, false)] })
    } else {
        None
    }
}

fn flag(name: &str, number: bool) -> (out: ActionFlag)
    ensures
        out.name@ == name@,
        out.number == number,
{
    ActionFlag { name: name.to_owned(), number }
}

fn find_shape(action: &str) -> (out: Option<ActionShape>)
    ensures
        match out {
            Some(s) => shape_of(action@) == Some(s@),
            None => shape_of(action@) is None,
        },
{
    let mut flags: Vec<ActionFlag> = Vec::new();
    let mut first: Option<String> = None;
    let mut file: Option<String> = None;
    if same_text(action, "capabilities") {
    } else if same_text(action, "deploy") {
        file = Some("--state".to_owned());
    } else if same_text(action, "install-mapping") {
        file = Some("--mapping".to_owned());
    } else if same_text(action, "issue-credential") {
        flags.push(flag("--issuer", false));
        flags.push(flag("--tenant", false));
        flags.push(flag("--subject", false));
        flags.push(flag("--expires", true));
    } else if same_text(action, "start") {
        file = Some("--data".to_owned());
        flags.push(flag("--definition", false));
        flags.push(flag("--workflow", false));
        flags.push(flag("--credential", false));
        flags.push(flag("--key", false));
    } else if same_text(action, "event") {
        file = Some("--event".to_owned());
        flags.push(flag("--credential", false));
    } else if same_text(action, "instance") {
        flags.push(flag("--id", false));
    } else if same_text(action, "outbox") {
        flags.push(flag("--instance", false));
    } else if same_text(action, "claim-outbox") {
        flags.push(flag("--lease-seconds", true));
    } else if same_text(action, "complete-outbox") {
        file = Some("--evidence".to_owned());
        flags.push(flag("--id", false));
        flags.push(flag("--token", false));
        flags.push(flag("--outcome", false));
    } else if same_text(action, "reconcile-outbox") {
        file = Some("--evidence".to_owned());
        flags.push(flag("--id", false));
        flags.push(flag("--outcome", false));
    } else if same_text(action, "migrate-instance") {
        first = Some("--expected-revision".to_owned());
        file = Some("--data".to_owned());
        flags.push(flag("--key", false));
        flags.push(flag("--instance", false));
        flags.push(flag("--definition", false));
        flags.push(flag("--workflow", false));
        flags.push(flag("--target", false));
        flags.push(flag("--operator-credential", false));
    } else {
        return None;
    }
    let shape: ActionShape = ActionShape { first, file, flags };
    assert(shape@ =~= shape_of(action@)->Some_0);
    Some(shape)
}

/// What an action needs before its file is read: its first number, and the path
/// of the file.
pub struct Begun {
    pub number: Option<u64>,
    pub file: Option<String>,
}

/// What an action needs before its file is read, or the message of a
/// `SCHEMA_INVALID` error.
pub open spec fn begun(action: Seq<char>, rest: Seq<Seq<char>>) -> Result<
    (Option<nat>, Option<Seq<char>>),
    Seq<char>,
> {
    match shape_of(action) {
        None => Err(WORKFLOW_USAGE@),
        Some(shape) => match first_number(shape.first, rest) {
            Err(e) => Err(e),
            Ok(number) => match shape.file {
                None => Ok((number, None)),
                Some(name) => match required(rest, name) {
                    Err(e) => Err(e),
                    Ok(path) => Ok((number, Some(path))),
                },
            },
        },
    }
}

pub open spec fn first_number(name: Option<Seq<char>>, rest: Seq<Seq<char>>) -> Result<
    Option<nat>,
    Seq<char>,
> {
    match name {
        None => Ok(None),
        Some(name) => match required_number(rest, name) {
            Err(e) => Err(e),
            Ok(n) => Ok(Some(n)),
        },
    }
}

/// What an action needs before its file is read.
pub fn begin_action(action: &str, rest: &Vec<String>) -> (out: Result<Begun, String>)
    ensures
        match out {
            Ok(b) => begun(action@, texts(rest@)) == Ok::<
                (Option<nat>, Option<Seq<char>>),
                Seq<char>,
            >(
                (
                    match b.number {
                        Some(n) => Some(n as nat),
                        None => None,
                    },
                    opt_text(b.file),
                ),
            ),
            Err(e) => begun(action@, texts(rest@)) == Err::<
                (Option<nat>, Option<Seq<char>>),
                Seq<char>,
            >(e@),
        },
{
    let shape: ActionShape = match find_shape(action) {
        None => {
            return Err(WORKFLOW_USAGE.to_owned());
        },
        Some(s) => s,
    };
    let number: Option<u64> = match &shape.first {
        None => None,
        Some(name) => match number(rest, name.as_str()) {
            Err(e) => {
                return Err(e);
            },
            Ok(n) => Some(n),
        },
    };
    match &shape.file {
        None => Ok(Begun { number, file: None }),
        Some(name) => match required_flag(rest, name.as_str()) {
            Err(e) => Err(e),
            Ok(path) => Ok(Begun { number, file: Some(path) }),
        },
    }
}

/// What an option says.
pub enum ActionValue {
    Text(String),
    Number(u64),
}

pub enum ValueView {
    Text(Seq<char>),
    Number(nat),
}

impl View for ActionValue {
    type V = ValueView;

    open spec fn view(&self) -> ValueView {
        match *self {
            ActionValue::Text(s) => ValueView::Text(s@),
            ActionValue::Number(n) => ValueView::Number(n as nat),
        }
    }
}

pub open spec fn value_views(values: Seq<ActionValue>) -> Seq<ValueView> {
    values.map_values(|v: ActionValue| v@)
}

/// What the first `n` options say, or what is wrong with the first of them that
/// does not do.
pub open spec fn flag_values(flags: Seq<(Seq<char>, bool)>, rest: Seq<Seq<char>>, n: nat) -> Result<
    Seq<ValueView>,
    Seq<char>,
>
    decreases n,
{
    if n == 0 || n > flags.len() {
        Ok(Seq::empty())
    } else {
        match flag_values(flags, rest, (n - 1) as nat) {
            Err(e) => Err(e),
            Ok(values) => {
                let (name, number) = flags[n - 1];
                if number {
                    match required_number(rest, name) {
                        Err(e) => Err(e),
                        Ok(v) => Ok(values.push(ValueView::Number(v))),
                    }
                } else {
                    match required(rest, name) {
                        Err(e) => Err(e),
                        Ok(v) => Ok(values.push(ValueView::Text(v))),
                    }
                }
            },
        }
    }
}

/// What an action is given once its file was read, or the message of a
/// `SCHEMA_INVALID` error.
pub open spec fn action_values(action: Seq<char>, rest: Seq<Seq<char>>) -> Result<
    Seq<ValueView>,
    Seq<char>,
> {
    match shape_of(action) {
        None => Err(WORKFLOW_USAGE@),
        Some(shape) => flag_values(shape.flags, rest, shape.flags.len()),
    }
}

proof fn lemma_wrong_stays(
    flags: Seq<(Seq<char>, bool)>,
    rest: Seq<Seq<char>>,
    n: nat,
    e: Seq<char>,
)
    requires
        n <= flags.len(),
        flag_values(flags, rest, n) == Err::<Seq<ValueView>, Seq<char>>(e),
    ensures
        flag_values(flags, rest, flags.len()) == Err::<Seq<ValueView>, Seq<char>>(e),
    decreases flags.len() - n,
{
    if n < flags.len() {
        lemma_wrong_stays(flags, rest, n + 1, e);
    }
}

/// What an action is given once its file was read.
pub fn finish_action(action: &str, rest: &Vec<String>) -> (out: Result<Vec<ActionValue>, String>)
    ensures
        match out {
            Ok(v) => action_values(action@, texts(rest@)) == Ok::<Seq<ValueView>, Seq<char>>(
                value_views(v@),
            ),
            Err(e) => action_values(action@, texts(rest@)) == Err::<Seq<ValueView>, Seq<char>>(e@),
        },
{
    let shape: ActionShape = match find_shape(action) {
        None => {
            return Err(WORKFLOW_USAGE.to_owned());
        },
        Some(s) => s,
    };
    let ghost flags = shape@.flags;
    let ghost views = texts(rest@);
    let mut out: Vec<ActionValue> = Vec::new();
    let n: usize = shape.flags.len();
    let mut i: usize = 0;
    assert(value_views(out@) =~= Seq::<ValueView>::empty());
    assert(flags.len() == n);
    while i < n
        invariant
            i <= n,
            n == shape.flags@.len(),
            flags == flag_views(shape.flags@),
            flags.len() == n,
            views == texts(rest@),
            shape_of(action@) == Some(shape@),
            flags == shape@.flags,
            flag_values(flags, views, i as nat) == Ok::<Seq<ValueView>, Seq<char>>(
                value_views(out@),
            ),
        decreases n - i,
    {
        let f: &ActionFlag = &shape.flags[i];
        assert(flags[i as int] == (f.name@, f.number));
        let ghost before = out@;
        let value: ActionValue = if f.number {
            match number(rest, f.name.as_str()) {
                Err(e) => {
                    proof {
                        lemma_wrong_stays(flags, views, (i + 1) as nat, e@);
                    }
                    return Err(e);
                },
                Ok(v) => ActionValue::Number(v),
            }
        } else {
            match required_flag(rest, f.name.as_str()) {
                Err(e) => {
                    proof {
                        lemma_wrong_stays(flags, views, (i + 1) as nat, e@);
                    }
                    return Err(e);
                },
                Ok(v) => ActionValue::Text(v),
            }
        };
        out.push(value);
        i += 1;
        assert(value_views(out@) =~= value_views(before).push(value@));
    }
    Ok(out)
}

/// What is said of an action that went well. Where the runtime hands something
/// back, that is `given`.
pub open spec fn action_answer(action: Seq<char>, given: JsonView) -> JsonView {
    if action == "deploy"@ {
        JsonView::Object(seq![("definition_id"@, given)])
    } else if action == "install-mapping"@ {
        JsonView::Object(seq![("installed"@, JsonView::Bool(true))])
    } else if action == "issue-credential"@ {
        JsonView::Object(seq![("credential"@, given)])
    } else if action == "outbox"@ {
        JsonView::Object(seq![("outbox"@, given)])
    } else if action == "complete-outbox"@ {
        JsonView::Object(seq![("completed"@, JsonView::Bool(true))])
    } else if action == "reconcile-outbox"@ {
        JsonView::Object(seq![("reconciled"@, JsonView::Bool(true))])
    } else {
        given
    }
}

fn one_field(key: &str, value: Json) -> (out: Json)
    ensures
        out@ == JsonView::Object(seq![(key@, value@)]),
{
    let mut fields: Fields = Fields::new();
    fields.put(key, value);
    assert(fields@ =~= seq![(key@, value@)]);
    fields.object()
}

/// What is said of an action that went well.
pub fn answer_action(action: &str, given: Json) -> (out: Json)
    ensures
        out@ == action_answer(action@, given@),
{
    if same_text(action, "deploy") {
        one_field("definition_id", given)
    } else if same_text(action, "install-mapping") {
        one_field("installed", Json::Bool(true))
    } else if same_text(action, "issue-credential") {
        one_field("credential", given)
    } else if same_text(action, "outbox") {
        one_field("outbox", given)
    } else if same_text(action, "complete-outbox") {
        one_field("completed", Json::Bool(true))
    } else if same_text(action, "reconcile-outbox") {
        one_field("reconciled", Json::Bool(true))
    } else {
        given
    }
}

/// What is said of a file that is no JSON document.
pub open spec fn unparsed_file(path: Seq<char>, error: Seq<char>) -> Seq<char> {
    "parsing "@ + path + ": "@ + error
}

fn say_unparsed_file(path: &str, error: &str) -> (out: String)
    ensures
        out@ == unparsed_file(path@, error@),
{
    let mut out: String = "parsing ".to_owned();
    out.append(path);
    out.append(": ");
    out.append(error);
    out
}

/// The document in a file, or the message of a `SCHEMA_INVALID` error.
pub fn read_document(path: &str, text: &str) -> (out: Result<Json, String>)
    ensures
        match out {
            Ok(v) => json_parsed(text@) == Ok::<JsonView, Seq<char>>(v@),
            Err(said) => json_parsed(text@) matches Err(e) && said@ == unparsed_file(path@, e),
        },
{
    match parse_json(text) {
        Ok(v) => Ok(v),
        Err(e) => Err(say_unparsed_file(path, e.as_str())),
    }
}

/// The arguments of the runtime one by one, two at a time: the database and the
/// authority are taken, the later of two counts, and everything else is left in
/// order.
pub proof fn law_reading_arguments(args: Seq<Seq<char>>, from: nat, o: ArgsView)
    ensures
        from >= args.len() ==> read_args(args, from, o) == Ok::<ArgsView, Seq<char>>(o),
        from + 1 < args.len() ==> {
            let flag = args[from as int];
            let value = args[from as int + 1];
            &&& flag == "--db"@ ==> read_args(args, from, o) == read_args(
                args,
                from + 2,
                ArgsView { db: Some(value), authority: o.authority, rest: o.rest },
            )
            &&& flag == "--authority"@ ==> read_args(args, from, o) == read_args(
                args,
                from + 2,
                ArgsView { db: o.db, authority: Some(value), rest: o.rest },
            )
            &&& flag != "--db"@ && flag != "--authority"@ ==> read_args(args, from, o) == read_args(
                args,
                from + 2,
                ArgsView { db: o.db, authority: o.authority, rest: o.rest + seq![flag, value] },
            )
        },
        from + 1 == args.len() ==> {
            let flag = args[from as int];
            &&& flag == "--db"@ ==> read_args(args, from, o) == Err::<ArgsView, Seq<char>>(
                "Missing value for --db"@,
            )
            &&& flag == "--authority"@ ==> read_args(args, from, o) == Err::<ArgsView, Seq<char>>(
                "Missing value for --authority"@,
            )
            &&& flag != "--db"@ && flag != "--authority"@ ==> read_args(args, from, o) == Ok::<
                ArgsView,
                Seq<char>,
            >(ArgsView { db: o.db, authority: o.authority, rest: o.rest.push(flag) })
        },
{
    reveal_strlit("--db");
    reveal_strlit("--authority");
    assert("--db"@.len() == 4);
    assert("--authority"@.len() == 11);
    if from + 1 < args.len() {
        let flag = args[from as int];
        let value = args[from as int + 1];
        assert(o.rest.push(flag).push(value) =~= o.rest + seq![flag, value]);
    }
}

/// The runtime is started exactly where the arguments can be read and name both a
/// database and an authority.
pub proof fn law_when_the_runtime_starts(args: Seq<Seq<char>>)
    ensures
        ({
            let read = read_args(
                args,
                0,
                ArgsView { db: None, authority: None, rest: Seq::empty() },
            );
            match workflow_args(args) {
                Ok((db, authority, rest)) => read == Ok::<ArgsView, Seq<char>>(
                    ArgsView { db: Some(db), authority: Some(authority), rest },
                ),
                Err(e) => {
                    ||| read == Err::<ArgsView, Seq<char>>(e)
                    ||| read is Ok && read->Ok_0.db is None && e == "Specify --db PATH"@
                    ||| read is Ok && read->Ok_0.db is Some && read->Ok_0.authority is None && e
                        == "Specify --authority FILE"@
                },
            }
        }),
{
}

/// The value of an option is what stands behind its first occurrence.
pub proof fn law_value_of_an_option(rest: Seq<Seq<char>>, name: Seq<char>, from: nat)
    ensures
        match flag_value(rest, name, from) {
            Some(v) => exists|i: int|
                {
                    &&& from <= i < rest.len() - 1
                    &&& #[trigger] rest[i] == name
                    &&& rest[i + 1] == v
                    &&& forall|j: int| from <= j < i ==> #[trigger] rest[j] != name
                },
            None => forall|i: int| from <= i < rest.len() - 1 ==> #[trigger] rest[i] != name,
        },
    decreases rest.len() - from,
{
    if from < rest.len() {
        if rest[from as int] != name {
            law_value_of_an_option(rest, name, from + 1);
        } else if from + 1 < rest.len() {
            assert(rest[from as int] == name);
        }
    }
}

/// An option that must be given is, or it is asked for by name; a number that it
/// says is read, or it is told that it is none.
pub proof fn law_required_options(rest: Seq<Seq<char>>, name: Seq<char>)
    ensures
        match flag_value(rest, name, 0) {
            Some(v) => {
                &&& required(rest, name) == Ok::<Seq<char>, Seq<char>>(v)
                &&& parsed_u64(v) matches Some(n) ==> required_number(rest, name) == Ok::<
                    nat,
                    Seq<char>,
                >(n)
                &&& parsed_u64(v) is None ==> required_number(rest, name) == Err::<nat, Seq<char>>(
                    name + " must be a number"@,
                )
            },
            None => {
                &&& required(rest, name) == Err::<Seq<char>, Seq<char>>("Specify "@ + name)
                &&& required_number(rest, name) == Err::<nat, Seq<char>>("Specify "@ + name)
            },
        },
{
}

/// What each action asks of its options: a number before its file, its file, and
/// the options behind it, of which some are numbers. Any other action is unknown.
pub proof fn law_shapes_of_actions(action: Seq<char>)
    ensures
        shape_of("capabilities"@) == Some(
            ShapeView { first: None, file: None, flags: Seq::empty() },
        ),
        shape_of("deploy"@) == Some(
            ShapeView { first: None, file: Some("--state"@), flags: Seq::empty() },
        ),
        shape_of("install-mapping"@) == Some(
            ShapeView { first: None, file: Some("--mapping"@), flags: Seq::empty() },
        ),
        shape_of("issue-credential"@) == Some(
            ShapeView {
                first: None,
                file: None,
                flags: seq![
                    ("--issuer"@, false),
                    ("--tenant"@, false),
                    ("--subject"@, false),
                    ("--expires"@, true),
                ],
            },
        ),
        shape_of("start"@) == Some(
            ShapeView {
                first: None,
                file: Some("--data"@),
                flags: seq![
                    ("--definition"@, false),
                    ("--workflow"@, false),
                    ("--credential"@, false),
                    ("--key"@, false),
                ],
            },
        ),
        shape_of("event"@) == Some(
            ShapeView {
                first: None,
                file: Some("--event"@),
                flags: seq![("--credential"@, false)],
            },
        ),
        shape_of("instance"@) == Some(
            ShapeView { first: None, file: None, flags: seq![("--id"@, false)] },
        ),
        shape_of("outbox"@) == Some(
            ShapeView { first: None, file: None, flags: seq![("--instance"@, false)] },
        ),
        shape_of("claim-outbox"@) == Some(
            ShapeView { first: None, file: None, flags: seq![("--lease-seconds"@, true)] },
        ),
        shape_of("complete-outbox"@) == Some(
            ShapeView {
                first: None,
                file: Some("--evidence"@),
                flags: seq![("--id"@, false), ("--token"@, false), ("--outcome"@, false)],
            },
        ),
        shape_of("reconcile-outbox"@) == Some(
            ShapeView {
                first: None,
                file: Some("--evidence"@),
                flags: seq![("--id"@, false), ("--outcome"@, false)],
            },
        ),
        shape_of("migrate-instance"@) == Some(
            ShapeView {
                first: Some("--expected-revision"@),
                file: Some("--data"@),
                flags: seq![
                    ("--key"@, false),
                    ("--instance"@, false),
                    ("--definition"@, false),
                    ("--workflow"@, false),
                    ("--target"@, false),
                    ("--operator-credential"@, false),
                ],
            },
        ),
        action != "capabilities"@ && action != "deploy"@ && action != "install-mapping"@ && action
            != "issue-credential"@ && action != "start"@ && action != "event"@ && action
            != "instance"@ && action != "outbox"@ && action != "claim-outbox"@ && action
            != "complete-outbox"@ && action != "reconcile-outbox"@ && action != "migrate-instance"@
            ==> shape_of(action) is None,
{
    reveal_strlit("capabilities");
    reveal_strlit("deploy");
    reveal_strlit("install-mapping");
    reveal_strlit("issue-credential");
    reveal_strlit("start");
    reveal_strlit("event");
    reveal_strlit("instance");
    reveal_strlit("outbox");
    reveal_strlit("claim-outbox");
    reveal_strlit("complete-outbox");
    reveal_strlit("reconcile-outbox");
    reveal_strlit("migrate-instance");
    assert("capabilities"@.len() == 12 && "capabilities"@[1] == 'a');
    assert("deploy"@.len() == 6 && "deploy"@[1] == 'e');
    assert("install-mapping"@.len() == 15 && "install-mapping"@[1] == 'n');
    assert("issue-credential"@.len() == 16 && "issue-credential"@[1] == 's');
    assert("start"@.len() == 5 && "start"@[1] == 't');
    assert("event"@.len() == 5 && "event"@[1] == 'v');
    assert("instance"@.len() == 8);
    assert("outbox"@.len() == 6 && "outbox"@[1] == 'u');
    assert("claim-outbox"@.len() == 12 && "claim-outbox"@[1] == 'l');
    assert("complete-outbox"@.len() == 15 && "complete-outbox"@[1] == 'o');
    assert("reconcile-outbox"@.len() == 16 && "reconcile-outbox"@[1] == 'e');
    assert("migrate-instance"@.len() == 16 && "migrate-instance"@[1] == 'i');
}

/// An action begins exactly where it is known, its number is given and is one,
/// and its file is named; what it begins with are these two.
pub proof fn law_when_an_action_begins(action: Seq<char>, rest: Seq<Seq<char>>)
    ensures
        begun(action, rest) is Ok <==> {
            &&& shape_of(action) is Some
            &&& shape_of(action)->Some_0.first matches Some(name) ==> required_number(
                rest,
                name,
            ) is Ok
            &&& shape_of(action)->Some_0.file matches Some(name) ==> required(rest, name) is Ok
        },
        begun(action, rest) matches Ok((number, file)) ==> {
            let shape = shape_of(action)->Some_0;
            &&& shape.first is None ==> number is None
            &&& shape.first matches Some(name) ==> number == Some(
                required_number(rest, name)->Ok_0,
            )
            &&& shape.file is None ==> file is None
            &&& shape.file matches Some(name) ==> file == Some(required(rest, name)->Ok_0)
        },
{
}

/// An action is given the value of each of its options, in order, as a number
/// where it is to be one; it is refused where one of them cannot be had.
pub proof fn law_values_of_an_action(
    flags: Seq<(Seq<char>, bool)>,
    rest: Seq<Seq<char>>,
    n: nat,
)
    requires
        n <= flags.len(),
    ensures
        flag_values(flags, rest, n) is Ok <==> forall|i: int|
            0 <= i < n ==> (if (#[trigger] flags[i]).1 {
                required_number(rest, flags[i].0) is Ok
            } else {
                required(rest, flags[i].0) is Ok
            }),
        flag_values(flags, rest, n) matches Ok(values) ==> {
            &&& values.len() == n
            &&& forall|i: int|
                0 <= i < n ==> #[trigger] values[i] == (if flags[i].1 {
                    ValueView::Number(required_number(rest, flags[i].0)->Ok_0)
                } else {
                    ValueView::Text(required(rest, flags[i].0)->Ok_0)
                })
        },
    decreases n,
{
    if n > 0 {
        law_values_of_an_action(flags, rest, (n - 1) as nat);
        let last = flags[n - 1];
    }
}

/// What is said of an action that went well: what the runtime handed back, under
/// its name, or that it was done.
pub proof fn law_answers_of_actions(action: Seq<char>, given: JsonView)
    ensures
        action_answer("deploy"@, given) == JsonView::Object(seq![("definition_id"@, given)]),
        action_answer("install-mapping"@, given) == JsonView::Object(
            seq![("installed"@, JsonView::Bool(true))],
        ),
        action_answer("issue-credential"@, given) == JsonView::Object(
            seq![("credential"@, given)],
        ),
        action_answer("outbox"@, given) == JsonView::Object(seq![("outbox"@, given)]),
        action_answer("complete-outbox"@, given) == JsonView::Object(
            seq![("completed"@, JsonView::Bool(true))],
        ),
        action_answer("reconcile-outbox"@, given) == JsonView::Object(
            seq![("reconciled"@, JsonView::Bool(true))],
        ),
        action != "deploy"@ && action != "install-mapping"@ && action != "issue-credential"@
            && action != "outbox"@ && action != "complete-outbox"@ && action != "reconcile-outbox"@
            ==> action_answer(action, given) == given,
{
    reveal_strlit("deploy");
    reveal_strlit("install-mapping");
    reveal_strlit("issue-credential");
    reveal_strlit("outbox");
    reveal_strlit("complete-outbox");
    reveal_strlit("reconcile-outbox");
    assert("deploy"@.len() == 6 && "deploy"@[0] == 'd');
    assert("install-mapping"@.len() == 15 && "install-mapping"@[0] == 'i');
    assert("issue-credential"@.len() == 16 && "issue-credential"@[0] == 'i');
    assert("outbox"@.len() == 6 && "outbox"@[0] == 'o');
    assert("complete-outbox"@.len() == 15 && "complete-outbox"@[0] == 'c');
    assert("reconcile-outbox"@.len() == 16 && "reconcile-outbox"@[0] == 'r');
}

/// An action that there is gets the values of the options that it asks for; of
/// any other the usage is told.
pub proof fn law_what_an_action_is_given(action: Seq<char>, rest: Seq<Seq<char>>)
    ensures
        shape_of(action) is None ==> action_values(action, rest) == Err::<
            Seq<ValueView>,
            Seq<char>,
        >(WORKFLOW_USAGE@),
        shape_of(action) matches Some(shape) ==> action_values(action, rest) == flag_values(
            shape.flags,
            rest,
            shape.flags.len(),
        ),
{
}

/// What is said of an option or a file names it.
pub proof fn law_what_is_said(a: Seq<char>, b: Seq<char>)
    ensures
        unspecified(a) == "Specify "@ + a,
        not_a_number(a) == a + " must be a number"@,
        unparsed_file(a, b) == "parsing "@ + a + ": "@ + b,
{
}

} // verus!
