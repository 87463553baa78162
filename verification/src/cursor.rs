//! Cursors: where a paged answer continues, bound to the request and to what it was answered from.
use vstd::prelude::*;
use crate::budget::{backend, backend_error};
use crate::domain::{FederationPageCursor, MemoryPageCursor, MemoryRevisionId, MAX_ID_BYTES};
use crate::json::{
    are_scalar_members, is_scalar, json_object, json_string, listed_values, read_listed_values, JsonObject,
    ToJson,
};
use crate::members::{
    find_number, find_text, holds_members, number_member, object_members, read_members, text_member,
    written_value_is_found,
};
use crate::query::{
    MemoryPageInfo, MemoryPageInfoView, MemoryQueryError, MemoryQueryErrorView, MemoryTruncation,
    MemoryTruncationReason, MemoryTruncationView,
};
use crate::federation::{FederatedPageInfo, FederatedPageInfoView};
use crate::record::Record;
use crate::text::{
    decimal, hex, hex_text, joined, strip_prefix, unhex, unhexed, unhexing_undoes_hexing,
};
use crate::value::is_bounded_text;

verus! {

/// The version of the cursors.
pub const CURSOR_VERSION: u32 = 1;

/// How many hexadecimal digits a cursor may have.
pub const MAX_CURSOR_DIGITS: usize = 4_096;

/// What a memory cursor says.
#[derive(Debug, PartialEq, Eq)]
pub struct CursorPayload {
    pub version: u32,
    pub operation: String,
    pub revision_id: String,
    pub fingerprint: String,
    pub offset: u64,
}

/// The model of [`CursorPayload`].
pub struct CursorPayloadView {
    pub version: u32,
    pub operation: Seq<char>,
    pub revision_id: Seq<char>,
    pub fingerprint: Seq<char>,
    pub offset: u64,
}

impl DeepView for CursorPayload {
    type V = CursorPayloadView;

    open spec fn deep_view(&self) -> CursorPayloadView {
        CursorPayloadView {
            version: self.version.deep_view(),
            operation: self.operation.deep_view(),
            revision_id: self.revision_id.deep_view(),
            fingerprint: self.fingerprint.deep_view(),
            offset: self.offset.deep_view(),
        }
    }
}

impl Record for CursorPayload {
    fn copied(&self) -> (copy: Self) {
        CursorPayload {
            version: self.version.copied(),
            operation: self.operation.copied(),
            revision_id: self.revision_id.copied(),
            fingerprint: self.fingerprint.copied(),
            offset: self.offset.copied(),
        }
    }

    fn same(&self, other: &Self) -> (same: bool) {
        self.version.same(&other.version)
            && self.operation.same(&other.operation)
            && self.revision_id.same(&other.revision_id)
            && self.fingerprint.same(&other.fingerprint)
            && self.offset.same(&other.offset)
    }
}

impl Clone for CursorPayload {
    fn clone(&self) -> (copy: Self)
        ensures
            copy.deep_view() == self.deep_view(),
    {
        self.copied()
    }
}

impl CursorPayloadView {
    /// The members of the JSON object.
    pub open spec fn members(self) -> Seq<(Seq<char>, Seq<char>)> {
        seq![
            ("version"@, <u32 as ToJson>::json(self.version)),
            ("operation"@, <String as ToJson>::json(self.operation)),
            ("revision_id"@, <String as ToJson>::json(self.revision_id)),
            ("fingerprint"@, <String as ToJson>::json(self.fingerprint)),
            ("offset"@, <u64 as ToJson>::json(self.offset)),
        ]
    }
}

impl ToJson for CursorPayload {
    open spec fn json(model: CursorPayloadView) -> Seq<char> {
        json_object(model.members())
    }

    fn to_json(&self) -> (text: String) {
        let object = JsonObject::new()
            .member("version", self.version.to_json())
            .member("operation", self.operation.to_json())
            .member("revision_id", self.revision_id.to_json())
            .member("fingerprint", self.fingerprint.to_json())
            .member("offset", self.offset.to_json());
        assert(object.members() =~= self.deep_view().members());
        object.finish()
    }
}

/// What a federation cursor says.
#[derive(Debug, PartialEq, Eq)]
pub struct FederationCursorPayload {
    pub version: u32,
    pub operation: String,
    pub fingerprint: String,
    pub revision_key: String,
    pub offset: u64,
}

/// The model of [`FederationCursorPayload`].
pub struct FederationCursorPayloadView {
    pub version: u32,
    pub operation: Seq<char>,
    pub fingerprint: Seq<char>,
    pub revision_key: Seq<char>,
    pub offset: u64,
}

impl DeepView for FederationCursorPayload {
    type V = FederationCursorPayloadView;

    open spec fn deep_view(&self) -> FederationCursorPayloadView {
        FederationCursorPayloadView {
            version: self.version.deep_view(),
            operation: self.operation.deep_view(),
            fingerprint: self.fingerprint.deep_view(),
            revision_key: self.revision_key.deep_view(),
            offset: self.offset.deep_view(),
        }
    }
}

impl Record for FederationCursorPayload {
    fn copied(&self) -> (copy: Self) {
        FederationCursorPayload {
            version: self.version.copied(),
            operation: self.operation.copied(),
            fingerprint: self.fingerprint.copied(),
            revision_key: self.revision_key.copied(),
            offset: self.offset.copied(),
        }
    }

    fn same(&self, other: &Self) -> (same: bool) {
        self.version.same(&other.version)
            && self.operation.same(&other.operation)
            && self.fingerprint.same(&other.fingerprint)
            && self.revision_key.same(&other.revision_key)
            && self.offset.same(&other.offset)
    }
}

impl Clone for FederationCursorPayload {
    fn clone(&self) -> (copy: Self)
        ensures
            copy.deep_view() == self.deep_view(),
    {
        self.copied()
    }
}

impl FederationCursorPayloadView {
    /// The members of the JSON object.
    pub open spec fn members(self) -> Seq<(Seq<char>, Seq<char>)> {
        seq![
            ("version"@, <u32 as ToJson>::json(self.version)),
            ("operation"@, <String as ToJson>::json(self.operation)),
            ("fingerprint"@, <String as ToJson>::json(self.fingerprint)),
            ("revision_key"@, <String as ToJson>::json(self.revision_key)),
            ("offset"@, <u64 as ToJson>::json(self.offset)),
        ]
    }
}

impl ToJson for FederationCursorPayload {
    open spec fn json(model: FederationCursorPayloadView) -> Seq<char> {
        json_object(model.members())
    }

    fn to_json(&self) -> (text: String) {
        let object = JsonObject::new()
            .member("version", self.version.to_json())
            .member("operation", self.operation.to_json())
            .member("fingerprint", self.fingerprint.to_json())
            .member("revision_key", self.revision_key.to_json())
            .member("offset", self.offset.to_json());
        assert(object.members() =~= self.deep_view().members());
        object.finish()
    }
}

/// The cursor that holds a JSON text.
pub open spec fn cursor_token(json: Seq<char>) -> Seq<char> {
    "cursor:"@ + hex_text(vstd::utf8::encode_utf8(json))
}

/// The bytes that a cursor holds, where it holds any.
pub open spec fn token_bytes(token: Seq<char>) -> Option<Seq<u8>> {
    let digits = vstd::utf8::encode_utf8(token.skip("cursor:"@.len() as int));
    if "cursor:"@.is_prefix_of(token) && digits.len() <= MAX_CURSOR_DIGITS && digits.len() % 2 == 0 {
        unhexed(digits)
    } else {
        None
    }
}

fn token_of(json: &str) -> (token: String)
    ensures
        token@ == cursor_token(json@),
{
    let digits = hex(json.as_bytes());
    joined("cursor:", digits.as_str())
}

fn bytes_of(token: &str) -> (bytes: Option<Vec<u8>>)
    ensures
        match bytes {
            Some(bytes) => token_bytes(token@) == Some(bytes@),
            None => token_bytes(token@) is None,
        },
{
    match strip_prefix(token, "cursor:") {
        Some(digits) => {
            let count = digits.as_str().as_bytes().len();
            if count > MAX_CURSOR_DIGITS || count % 2 != 0 {
                None
            } else {
                unhex(digits.as_str())
            }
        },
        None => None,
    }
}

/// A cursor holds the bytes that it was made from, where it is not too long.
proof fn token_holds_its_bytes(json: Seq<char>)
    requires
        2 * vstd::utf8::encode_utf8(json).len() <= MAX_CURSOR_DIGITS,
    ensures
        token_bytes(cursor_token(json)) == Some(vstd::utf8::encode_utf8(json)),
{
    let bytes = vstd::utf8::encode_utf8(json);
    let token = cursor_token(json);
    unhexing_undoes_hexing(bytes);
    assert(token.skip("cursor:"@.len() as int) =~= hex_text(bytes));
    assert("cursor:"@ =~= token.take("cursor:"@.len() as int));
}

/// A cursor that fits its bounds is not too long.
proof fn bounded_token_is_short(json: Seq<char>)
    requires
        is_bounded_text(cursor_token(json), MAX_ID_BYTES as nat, false),
    ensures
        2 * vstd::utf8::encode_utf8(json).len() <= MAX_CURSOR_DIGITS,
{
    let bytes = vstd::utf8::encode_utf8(json);
    let token = cursor_token(json);
    crate::digest::hex_text_has_hex_digits(bytes);
    reveal_strlit("cursor:");
    assert(vstd::utf8::is_ascii_chars(token)) by {
        assert forall|i: int| 0 <= i < token.len() implies (#[trigger] token[i] as nat) < 128 by {
            if i >= "cursor:"@.len() {
                assert(crate::digest::is_hex_digit(hex_text(bytes)[i - "cursor:"@.len()]));
            }
        }
    }
    vstd::utf8::is_ascii_chars_encode_utf8(token);
}

/// The values that a payload holds, two of them under names that its kind gives: its version, its
/// operation, those two and its offset. They stand as the members of an object, each of them once, or, in
/// that order, as the items of an array.
pub open spec fn payload_values(bytes: Seq<u8>, third: Seq<char>, fourth: Seq<char>) -> Option<
    (u64, Seq<char>, Seq<char>, Seq<char>, u64),
> {
    match listed_values(bytes) {
        Some(values) => Some((values.0 as u64, values.1, values.2, values.3, values.4)),
        None => match object_members(bytes) {
            Some(members) => member_values(members, third, fourth),
            None => None,
        },
    }
}

/// The values of a payload among the members of an object.
pub open spec fn member_values(
    members: Seq<(Seq<char>, Seq<u8>)>,
    third: Seq<char>,
    fourth: Seq<char>,
) -> Option<(u64, Seq<char>, Seq<char>, Seq<char>, u64)> {
    match (
        number_member(members, "version"@),
        text_member(members, "operation"@),
        text_member(members, third),
        text_member(members, fourth),
        number_member(members, "offset"@),
    ) {
        (Some(version), Some(operation), Some(third), Some(fourth), Some(offset)) => Some(
            (version, operation, third, fourth, offset),
        ),
        _ => None,
    }
}

/// The members of a payload.
spec fn payload_members(
    operation: Seq<char>,
    third: (Seq<char>, Seq<char>),
    fourth: (Seq<char>, Seq<char>),
    offset: u64,
) -> Seq<(Seq<char>, Seq<char>)> {
    seq![
        ("version"@, decimal(CURSOR_VERSION as u64 as nat)),
        ("operation"@, json_string(operation)),
        (third.0, json_string(third.1)),
        (fourth.0, json_string(fourth.1)),
        ("offset"@, decimal(offset as nat)),
    ]
}

/// Whether these are the bytes of a payload.
spec fn holds_payload(
    bytes: Seq<u8>,
    operation: Seq<char>,
    third: (Seq<char>, Seq<char>),
    fourth: (Seq<char>, Seq<char>),
    offset: u64,
) -> bool {
    let members = payload_members(operation, third, fourth, offset);
    bytes == vstd::utf8::encode_utf8(json_object(members)) && are_scalar_members(members)
}

fn read_payload(bytes: &[u8], third: &str, fourth: &str) -> (result: Option<
    (u64, String, String, String, u64),
>)
    ensures
        match result {
            Some(values) => payload_values(bytes@, third@, fourth@) == Some(
                (values.0, values.1@, values.2@, values.3@, values.4),
            ),
            None => payload_values(bytes@, third@, fourth@) is None,
        },
        forall|operation: Seq<char>, one: Seq<char>, other: Seq<char>, offset: u64| #[trigger]
            holds_payload(bytes@, operation, (third@, one), (fourth@, other), offset)
                ==> payload_values(bytes@, third@, fourth@) == Some(
                (CURSOR_VERSION as u64, operation, one, other, offset),
            ),
{
    let listed = read_listed_values(bytes);
    let members = match read_members(bytes) {
        Some(members) => members,
        None => {
            proof {
                assert forall|made_for: Seq<char>, first: Seq<char>, second: Seq<char>, written: u64|
                    !(#[trigger] holds_payload(
                        bytes@,
                        made_for,
                        (third@, first),
                        (fourth@, second),
                        written,
                    )) by {
                    let members = payload_members(made_for, (third@, first), (fourth@, second), written);
                    if holds_payload(bytes@, made_for, (third@, first), (fourth@, second), written) {
                        assert(holds_members(bytes@, members));
                    }
                }
            }
            return match listed {
                Some((version, operation, one, other, offset)) => Some(
                    (version as u64, operation, one, other, offset),
                ),
                None => None,
            };
        },
    };
    let version = find_number(&members, "version");
    let operation = find_text(&members, "operation");
    let one = find_text(&members, third);
    let other = find_text(&members, fourth);
    let offset = find_number(&members, "offset");
    proof {
        assert forall|made_for: Seq<char>, first: Seq<char>, second: Seq<char>, written: u64| #[trigger]
            holds_payload(bytes@, made_for, (third@, first), (fourth@, second), written) implies payload_values(
            bytes@,
            third@,
            fourth@,
        ) == Some((CURSOR_VERSION as u64, made_for, first, second, written)) by {
            let members = payload_members(made_for, (third@, first), (fourth@, second), written);
            assert(holds_members(bytes@, members));
            written_value_is_found(members, 0);
            written_value_is_found(members, 1);
            written_value_is_found(members, 2);
            written_value_is_found(members, 3);
            written_value_is_found(members, 4);
            assert(members[0] == ("version"@, decimal(CURSOR_VERSION as u64 as nat)));
            assert(members[1] == ("operation"@, json_string(made_for)));
            assert(members[2] == (third@, json_string(first)));
            assert(members[3] == (fourth@, json_string(second)));
            assert(members[4] == ("offset"@, decimal(written as nat)));
        }
    }
    if let Some((version, operation, one, other, offset)) = listed {
        return Some((version as u64, operation, one, other, offset));
    }
    match (version, operation, one, other, offset) {
        (Some(version), Some(operation), Some(one), Some(other), Some(offset)) => Some(
            (version, operation, one, other, offset),
        ),
        _ => None,
    }
}

/// The memory cursor for an operation on a revision.
pub open spec fn memory_cursor(
    operation: Seq<char>,
    revision_id: Seq<char>,
    fingerprint: Seq<char>,
    offset: u64,
) -> Seq<char> {
    cursor_token(
        <CursorPayload as ToJson>::json(
            CursorPayloadView { version: CURSOR_VERSION, operation, revision_id, fingerprint, offset },
        ),
    )
}

/// Makes the cursor from which an operation on a revision continues.
pub fn encode_cursor(
    operation: &str,
    revision_id: &MemoryRevisionId,
    fingerprint: &str,
    offset: u64,
) -> (result: Result<MemoryPageCursor, MemoryQueryError>)
    ensures
        match result {
            Ok(cursor) => cursor.deep_view() == memory_cursor(
                operation@,
                revision_id.deep_view(),
                fingerprint@,
                offset,
            ),
            Err(error) => error.deep_view() == backend("query.cursor"@),
        },
        result is Ok == is_bounded_text(
            memory_cursor(operation@, revision_id.deep_view(), fingerprint@, offset),
            MAX_ID_BYTES as nat,
            false,
        ),
{
    let payload = CursorPayload {
        version: CURSOR_VERSION,
        operation: operation.to_owned(),
        revision_id: revision_id.as_str().to_owned(),
        fingerprint: fingerprint.to_owned(),
        offset: offset,
    };
    let token = token_of(payload.to_json().as_str());
    match MemoryPageCursor::new(token.as_str()) {
        Ok(cursor) => Ok(cursor),
        Err(_) => {
            proof {
                reveal_strlit("query.cursor");
            }
            Err(backend_error("query.cursor"))
        },
    }
}

/// The offset that a cursor holds for an operation on a revision; none where the cursor is not one
/// for that operation, that revision and that request.
pub open spec fn cursor_offset(
    token: Seq<char>,
    operation: Seq<char>,
    revision_id: Seq<char>,
    fingerprint: Seq<char>,
) -> Option<u64> {
    match token_bytes(token) {
        Some(bytes) => match payload_values(bytes, "revision_id"@, "fingerprint"@) {
            Some((version, named, revision, request, offset)) => if version == CURSOR_VERSION && named
                == operation && revision == revision_id && request == fingerprint {
                Some(offset)
            } else {
                None
            },
            None => None,
        },
        None => None,
    }
}

/// The offset at which a request starts: that of its cursor, or the first; none where the cursor is
/// not one for that operation, that revision and that request.
pub open spec fn page_offset(
    cursor: Option<Seq<char>>,
    operation: Seq<char>,
    revision_id: Seq<char>,
    fingerprint: Seq<char>,
) -> Option<u64> {
    match cursor {
        Some(token) => cursor_offset(token, operation, revision_id, fingerprint),
        None => Some(0),
    }
}

/// Reads the offset from which an operation on a revision continues. A cursor that was made for
/// this operation, this revision and this request gives back its offset; one that was made for
/// another is refused.
pub fn decode_cursor(
    cursor: Option<&MemoryPageCursor>,
    operation: &str,
    revision_id: &MemoryRevisionId,
    fingerprint: &str,
) -> (result: Result<u64, MemoryQueryError>)
    ensures
        cursor is None ==> result == Ok::<u64, MemoryQueryError>(0),
        cursor matches Some(cursor) ==> match result {
            Ok(offset) => cursor_offset(
                cursor.deep_view(),
                operation@,
                revision_id.deep_view(),
                fingerprint@,
            ) == Some(offset),
            Err(error) => error.deep_view() == MemoryQueryErrorView::StaleCursor && cursor_offset(
                cursor.deep_view(),
                operation@,
                revision_id.deep_view(),
                fingerprint@,
            ) is None,
        },
        cursor matches Some(cursor) ==> forall|
            made_for: Seq<char>,
            made_on: Seq<char>,
            made_by: Seq<char>,
            offset: u64,
        |
            cursor.deep_view() == #[trigger] memory_cursor(made_for, made_on, made_by, offset) ==> if made_for
                == operation@ && made_on == revision_id.deep_view() && made_by == fingerprint@ {
                result == Ok::<u64, MemoryQueryError>(offset)
            } else {
                result is Err
            },
{
    let cursor = match cursor {
        Some(cursor) => cursor,
        None => {
            return Ok(0);
        },
    };
    let token = cursor.as_str();
    let bytes = match bytes_of(token) {
        Some(bytes) => bytes,
        None => {
            proof {
                assert forall|made_for: Seq<char>, made_on: Seq<char>, made_by: Seq<char>, offset: u64|
                    token@ == #[trigger] memory_cursor(made_for, made_on, made_by, offset) implies false by {
                    memory_cursor_is_readable(made_for, made_on, made_by, offset);
                }
            }
            return Err(MemoryQueryError::StaleCursor);
        },
    };
    let values = read_payload(bytes.as_slice(), "revision_id", "fingerprint");
    proof {
        assert forall|made_for: Seq<char>, made_on: Seq<char>, made_by: Seq<char>, written: u64|
            token@ == #[trigger] memory_cursor(made_for, made_on, made_by, written) implies payload_values(
            bytes@,
            "revision_id"@,
            "fingerprint"@,
        ) == Some((CURSOR_VERSION as u64, made_for, made_on, made_by, written)) by {
            memory_cursor_is_readable(made_for, made_on, made_by, written);
            assert(CursorPayloadView {
                version: CURSOR_VERSION,
                operation: made_for,
                revision_id: made_on,
                fingerprint: made_by,
                offset: written,
            }.members() =~= payload_members(
                made_for,
                ("revision_id"@, made_on),
                ("fingerprint"@, made_by),
                written,
            ));
            assert(holds_payload(
                bytes@,
                made_for,
                ("revision_id"@, made_on),
                ("fingerprint"@, made_by),
                written,
            ));
        }
    }
    match values {
        Some((version, named, revision, request, offset)) => if version == CURSOR_VERSION as u64 && named
            == operation.to_owned() && revision == revision_id.as_str().to_owned() && request
            == fingerprint.to_owned() {
            Ok(offset)
        } else {
            Err(MemoryQueryError::StaleCursor)
        },
        None => Err(MemoryQueryError::StaleCursor),
    }
}

proof fn memory_cursor_is_readable(
    operation: Seq<char>,
    revision_id: Seq<char>,
    fingerprint: Seq<char>,
    offset: u64,
)
    requires
        is_bounded_text(
            memory_cursor(operation, revision_id, fingerprint, offset),
            MAX_ID_BYTES as nat,
            false,
        ),
    ensures
        ({
            let payload = CursorPayloadView {
                version: CURSOR_VERSION,
                operation,
                revision_id,
                fingerprint,
                offset,
            };
            &&& token_bytes(memory_cursor(operation, revision_id, fingerprint, offset)) == Some(
                vstd::utf8::encode_utf8(json_object(payload.members())),
            )
            &&& are_scalar_members(payload.members())
        }),
{
    let payload = CursorPayloadView {
        version: CURSOR_VERSION,
        operation,
        revision_id,
        fingerprint,
        offset,
    };
    let members = payload.members();
    bounded_token_is_short(json_object(members));
    token_holds_its_bytes(json_object(members));
    reveal_strlit("version");
    reveal_strlit("operation");
    reveal_strlit("revision_id");
    reveal_strlit("fingerprint");
    reveal_strlit("offset");
    assert("revision_id"@[0] == 'r' && "fingerprint"@[0] == 'f');
    assert(members[0].1 == decimal(CURSOR_VERSION as u64 as nat));
    assert(members[1].1 == json_string(operation));
    assert(members[2].1 == json_string(revision_id));
    assert(members[3].1 == json_string(fingerprint));
    assert(members[4].1 == decimal(offset as nat));
    assert forall|i: int| 0 <= i < members.len() implies is_scalar((#[trigger] members[i]).1) by {
        assert(i == 0 || i == 1 || i == 2 || i == 3 || i == 4);
    }
    assert forall|i: int, j: int| 0 <= i < j < members.len() implies (#[trigger] members[i]).0
        != (#[trigger] members[j]).0 by {
        assert(members[i].0.len() != members[j].0.len() || members[i].0[0] != members[j].0[0]);
    }
}

/// How an answer was cut short.
pub open spec fn truncation(
    reason: Option<MemoryTruncationReason>,
    returned_results: nat,
    returned_bytes: u64,
    explored_depth: u32,
) -> Option<MemoryTruncationView> {
    match reason {
        Some(reason) => Some(
            MemoryTruncationView {
                reason,
                returned_results: if returned_results <= u32::MAX {
                    returned_results as u32
                } else {
                    u32::MAX
                },
                returned_bytes,
                explored_depth,
            },
        ),
        None => None,
    }
}

fn truncation_of(
    reason: Option<MemoryTruncationReason>,
    returned_results: usize,
    returned_bytes: u64,
    explored_depth: u32,
) -> (result: Option<MemoryTruncation>)
    ensures
        result.deep_view() == truncation(
            reason,
            returned_results as nat,
            returned_bytes,
            explored_depth,
        ),
{
    match reason {
        Some(reason) => {
            let returned = if returned_results as u64 <= u32::MAX as u64 {
                returned_results as u32
            } else {
                u32::MAX
            };
            Some(
                MemoryTruncation {
                    reason,
                    returned_results: returned,
                    returned_bytes,
                    explored_depth,
                },
            )
        },
        None => None,
    }
}

/// Whether an answer can be continued: there is more, something was returned, and it was the number
/// or the size of the results that ended it.
pub open spec fn is_continued(
    reason: Option<MemoryTruncationReason>,
    returned_results: nat,
    has_more: bool,
) -> bool {
    has_more && returned_results > 0 && (reason == Some(MemoryTruncationReason::Results) || reason == Some(
        MemoryTruncationReason::Bytes,
    ))
}

fn continues(
    reason: Option<MemoryTruncationReason>,
    returned_results: usize,
    has_more: bool,
) -> (continued: bool)
    ensures
        continued == is_continued(reason, returned_results as nat, has_more),
{
    has_more && returned_results > 0 && match reason {
        Some(MemoryTruncationReason::Results) => true,
        Some(MemoryTruncationReason::Bytes) => true,
        _ => false,
    }
}

/// What an answer says of its page.
pub open spec fn page_model(
    reason: Option<MemoryTruncationReason>,
    returned_results: nat,
    returned_bytes: u64,
    explored_depth: u32,
    has_more: bool,
    cursor: Seq<char>,
) -> MemoryPageInfoView {
    MemoryPageInfoView {
        next_cursor: if is_continued(reason, returned_results, has_more) {
            Some(cursor)
        } else {
            None
        },
        truncation: truncation(reason, returned_results, returned_bytes, explored_depth),
    }
}

/// What an answer says of its page: how it was cut short, and where it continues.
pub fn memory_page(
    reason: Option<MemoryTruncationReason>,
    returned_results: usize,
    returned_bytes: u64,
    explored_depth: u32,
    has_more: bool,
    operation: &str,
    revision_id: &MemoryRevisionId,
    fingerprint: &str,
    offset: u64,
) -> (result: Result<MemoryPageInfo, MemoryQueryError>)
    ensures
        match result {
            Ok(page) => page.deep_view() == page_model(
                reason,
                returned_results as nat,
                returned_bytes,
                explored_depth,
                has_more,
                memory_cursor(operation@, revision_id.deep_view(), fingerprint@, offset),
            ),
            Err(error) => error.deep_view() == backend("query.cursor"@),
        },
        result is Err == (is_continued(reason, returned_results as nat, has_more) && !is_bounded_text(
            memory_cursor(operation@, revision_id.deep_view(), fingerprint@, offset),
            MAX_ID_BYTES as nat,
            false,
        )),
{
    let next_cursor = if continues(reason, returned_results, has_more) {
        match encode_cursor(operation, revision_id, fingerprint, offset) {
            Ok(cursor) => Some(cursor),
            Err(error) => {
                return Err(error);
            },
        }
    } else {
        None
    };
    Ok(
        MemoryPageInfo {
            next_cursor,
            truncation: truncation_of(reason, returned_results, returned_bytes, explored_depth),
        },
    )
}

/// The federation cursor for an operation on a pair of revisions.
pub open spec fn federation_cursor(
    operation: Seq<char>,
    fingerprint: Seq<char>,
    revision_key: Seq<char>,
    offset: u64,
) -> Seq<char> {
    cursor_token(
        <FederationCursorPayload as ToJson>::json(
            FederationCursorPayloadView {
                version: CURSOR_VERSION,
                operation,
                fingerprint,
                revision_key,
                offset,
            },
        ),
    )
}

/// Makes the cursor from which a federated operation continues.
pub fn encode_federation_cursor(
    operation: &str,
    fingerprint: &str,
    revision_key: &str,
    offset: u64,
) -> (result: Result<FederationPageCursor, MemoryQueryError>)
    ensures
        match result {
            Ok(cursor) => cursor.deep_view() == federation_cursor(
                operation@,
                fingerprint@,
                revision_key@,
                offset,
            ),
            Err(error) => error.deep_view() == backend("federation.cursor"@),
        },
        result is Ok == is_bounded_text(
            federation_cursor(operation@, fingerprint@, revision_key@, offset),
            MAX_ID_BYTES as nat,
            false,
        ),
{
    let payload = FederationCursorPayload {
        version: CURSOR_VERSION,
        operation: operation.to_owned(),
        fingerprint: fingerprint.to_owned(),
        revision_key: revision_key.to_owned(),
        offset: offset,
    };
    let token = token_of(payload.to_json().as_str());
    match FederationPageCursor::new(token.as_str()) {
        Ok(cursor) => Ok(cursor),
        Err(_) => {
            proof {
                reveal_strlit("federation.cursor");
            }
            Err(backend_error("federation.cursor"))
        },
    }
}

/// What a federation cursor holds for an operation and a request: the revisions that it was made on
/// and its offset; nothing where the cursor is not one for that operation and that request.
pub open spec fn federation_cursor_payload(
    token: Seq<char>,
    operation: Seq<char>,
    fingerprint: Seq<char>,
) -> Option<FederationCursorPayloadView> {
    match token_bytes(token) {
        Some(bytes) => match payload_values(bytes, "fingerprint"@, "revision_key"@) {
            Some((version, named, request, revision_key, offset)) => if version == CURSOR_VERSION && named
                == operation && request == fingerprint {
                Some(
                    FederationCursorPayloadView {
                        version: CURSOR_VERSION,
                        operation,
                        fingerprint,
                        revision_key,
                        offset,
                    },
                )
            } else {
                None
            },
            None => None,
        },
        None => None,
    }
}

/// Reads where a federated operation continues. A cursor that was made for this operation and this
/// request gives back what it was made of; one that was made for another is refused.
pub fn decode_federation_cursor(
    cursor: Option<&FederationPageCursor>,
    operation: &str,
    fingerprint: &str,
) -> (result: Result<Option<FederationCursorPayload>, MemoryQueryError>)
    ensures
        cursor is None ==> result == Ok::<Option<FederationCursorPayload>, MemoryQueryError>(None),
        cursor matches Some(cursor) ==> match result {
            Ok(payload) => payload is Some && federation_cursor_payload(
                cursor.deep_view(),
                operation@,
                fingerprint@,
            ) == payload.deep_view(),
            Err(error) => error.deep_view() == MemoryQueryErrorView::StaleCursor && federation_cursor_payload(
                cursor.deep_view(),
                operation@,
                fingerprint@,
            ) is None,
        },
        cursor matches Some(cursor) ==> forall|
            made_for: Seq<char>,
            made_by: Seq<char>,
            made_on: Seq<char>,
            offset: u64,
        |
            cursor.deep_view() == #[trigger] federation_cursor(made_for, made_by, made_on, offset) ==> if made_for
                == operation@ && made_by == fingerprint@ {
                result matches Ok(Some(payload)) && payload.revision_key@ == made_on && payload.offset == offset
            } else {
                result is Err
            },
{
    let cursor = match cursor {
        Some(cursor) => cursor,
        None => {
            return Ok(None);
        },
    };
    let token = cursor.as_str();
    let bytes = match bytes_of(token) {
        Some(bytes) => bytes,
        None => {
            proof {
                assert forall|made_for: Seq<char>, made_by: Seq<char>, made_on: Seq<char>, offset: u64|
                    token@ == #[trigger] federation_cursor(made_for, made_by, made_on, offset) implies false by {
                    federation_cursor_is_readable(made_for, made_by, made_on, offset);
                }
            }
            return Err(MemoryQueryError::StaleCursor);
        },
    };
    let values = read_payload(bytes.as_slice(), "fingerprint", "revision_key");
    proof {
        assert forall|made_for: Seq<char>, made_by: Seq<char>, made_on: Seq<char>, written: u64|
            token@ == #[trigger] federation_cursor(made_for, made_by, made_on, written) implies payload_values(
            bytes@,
            "fingerprint"@,
            "revision_key"@,
        ) == Some((CURSOR_VERSION as u64, made_for, made_by, made_on, written)) by {
            federation_cursor_is_readable(made_for, made_by, made_on, written);
            assert(FederationCursorPayloadView {
                version: CURSOR_VERSION,
                operation: made_for,
                fingerprint: made_by,
                revision_key: made_on,
                offset: written,
            }.members() =~= payload_members(
                made_for,
                ("fingerprint"@, made_by),
                ("revision_key"@, made_on),
                written,
            ));
            assert(holds_payload(
                bytes@,
                made_for,
                ("fingerprint"@, made_by),
                ("revision_key"@, made_on),
                written,
            ));
        }
    }
    match values {
        Some((version, named, request, revision_key, offset)) => if version == CURSOR_VERSION as u64
            && named == operation.to_owned() && request == fingerprint.to_owned() {
            Ok(
                Some(
                    FederationCursorPayload {
                        version: CURSOR_VERSION,
                        operation: operation.to_owned(),
                        fingerprint: fingerprint.to_owned(),
                        revision_key,
                        offset,
                    },
                ),
            )
        } else {
            Err(MemoryQueryError::StaleCursor)
        },
        None => Err(MemoryQueryError::StaleCursor),
    }
}

proof fn federation_cursor_is_readable(
    operation: Seq<char>,
    fingerprint: Seq<char>,
    revision_key: Seq<char>,
    offset: u64,
)
    requires
        is_bounded_text(
            federation_cursor(operation, fingerprint, revision_key, offset),
            MAX_ID_BYTES as nat,
            false,
        ),
    ensures
        ({
            let payload = FederationCursorPayloadView {
                version: CURSOR_VERSION,
                operation,
                fingerprint,
                revision_key,
                offset,
            };
            &&& token_bytes(federation_cursor(operation, fingerprint, revision_key, offset)) == Some(
                vstd::utf8::encode_utf8(json_object(payload.members())),
            )
            &&& are_scalar_members(payload.members())
        }),
{
    let payload = FederationCursorPayloadView {
        version: CURSOR_VERSION,
        operation,
        fingerprint,
        revision_key,
        offset,
    };
    let members = payload.members();
    bounded_token_is_short(json_object(members));
    token_holds_its_bytes(json_object(members));
    reveal_strlit("version");
    reveal_strlit("operation");
    reveal_strlit("revision_key");
    reveal_strlit("fingerprint");
    reveal_strlit("offset");
    assert(members[0].1 == decimal(CURSOR_VERSION as u64 as nat));
    assert(members[1].1 == json_string(operation));
    assert(members[2].1 == json_string(fingerprint));
    assert(members[3].1 == json_string(revision_key));
    assert(members[4].1 == decimal(offset as nat));
    assert forall|i: int| 0 <= i < members.len() implies is_scalar((#[trigger] members[i]).1) by {
        assert(i == 0 || i == 1 || i == 2 || i == 3 || i == 4);
    }
    assert forall|i: int, j: int| 0 <= i < j < members.len() implies (#[trigger] members[i]).0
        != (#[trigger] members[j]).0 by {
        assert(members[i].0.len() != members[j].0.len() || members[i].0[0] != members[j].0[0]);
    }
}

/// Refuses a cursor that was made on other revisions.
pub fn validate_cursor_revision(
    cursor: Option<&FederationCursorPayload>,
    revision_key: &str,
) -> (result: Result<(), MemoryQueryError>)
    ensures
        result is Ok == (cursor is None || cursor->0.revision_key@ == revision_key@),
        result matches Err(error) ==> error.deep_view() == MemoryQueryErrorView::StaleCursor,
{
    match cursor {
        Some(cursor) => if cursor.revision_key == revision_key.to_owned() {
            Ok(())
        } else {
            Err(MemoryQueryError::StaleCursor)
        },
        None => Ok(()),
    }
}

/// What a federated answer says of its page.
pub open spec fn federated_page_model(
    reason: Option<MemoryTruncationReason>,
    returned_results: nat,
    returned_bytes: u64,
    explored_depth: u32,
    has_more: bool,
    cursor: Seq<char>,
) -> FederatedPageInfoView {
    FederatedPageInfoView {
        next_cursor: if is_continued(reason, returned_results, has_more) {
            Some(cursor)
        } else {
            None
        },
        truncation: truncation(reason, returned_results, returned_bytes, explored_depth),
    }
}

/// What a federated answer says of its page: how it was cut short, and where it continues.
pub fn federated_page(
    reason: Option<MemoryTruncationReason>,
    returned_results: usize,
    returned_bytes: u64,
    explored_depth: u32,
    has_more: bool,
    operation: &str,
    fingerprint: &str,
    revision_key: &str,
    offset: u64,
) -> (result: Result<FederatedPageInfo, MemoryQueryError>)
    ensures
        match result {
            Ok(page) => page.deep_view() == federated_page_model(
                reason,
                returned_results as nat,
                returned_bytes,
                explored_depth,
                has_more,
                federation_cursor(operation@, fingerprint@, revision_key@, offset),
            ),
            Err(error) => error.deep_view() == backend("federation.cursor"@),
        },
        result is Err == (is_continued(reason, returned_results as nat, has_more) && !is_bounded_text(
            federation_cursor(operation@, fingerprint@, revision_key@, offset),
            MAX_ID_BYTES as nat,
            false,
        )),
{
    let next_cursor = if continues(reason, returned_results, has_more) {
        match encode_federation_cursor(operation, fingerprint, revision_key, offset) {
            Ok(cursor) => Some(cursor),
            Err(error) => {
                return Err(error);
            },
        }
    } else {
        None
    };
    Ok(
        FederatedPageInfo {
            next_cursor,
            truncation: truncation_of(reason, returned_results, returned_bytes, explored_depth),
        },
    )
}

}
