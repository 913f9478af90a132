//! Which handler a packet goes to once the user is logged in, by its
//! two-character header.
use vstd::prelude::*;

use crate::text::to_chars;

verus! {

/// The handler of a packet from a logged-in user; `Unknown` for a header
/// the server does not handle.
#[derive(Debug, Clone, Copy, PartialEq, Eq, Structural)]
pub enum Route {
    KeepAlive,
    Date,
    MessengerInit,
    RefreshClub,
    RefreshAppearance,
    RefreshValueables,
    LeaveRoom,
    RefreshBadges,
    RefreshGroupStatus,
    RecyclerSetup,
    RecyclerSession,
    EnterRoomDetermine,
    EnterRoomCheckAccess,
    EnterRoomGuestroomData,
    EnterRoomPublicroomAdvertisement,
    EnterRoomLoad,
    EnterRoomItems,
    EnterRoomGroupsAndLobby,
    EnterRoomWallitems,
    EnterRoomAddUser,
    RoomGiveRights,
    RoomRotateUser,
    RoomWalkToSquare,
    RoomTakeRights,
    RoomAnswerDoorbell,
    RoomEnterTeleporter,
    RoomClickDoor,
    RoomSelectSwimOutfit,
    RoomPlaceItem,
    RoomApplyDecor,
    RoomPickupItem,
    RoomMoveItem,
    RoomToggleWallItem,
    RoomToggleFloorItem,
    StatusStop,
    StatusWave,
    StatusDance,
    StatusLidoVote,
    StatusCarryItem,
    BadgesSwitch,
    ItemSpinDice,
    ItemCloseDice,
    ItemOpenPresentbox,
    ItemRedeemCredit,
    TradeStart,
    TradeOfferItem,
    TradeDecline,
    TradeAccept,
    TradeAbort,
    ItemOpenSticky,
    ItemEditSticky,
    ItemDeleteSticky,
    ChatSay,
    ChatShout,
    RoomChatWhisper,
    RoomPollAnswer,
    NavigatorViewOwnRooms,
    NavigatorRoomSearch,
    NavigatorFavouriteRooms,
    NavigatorAddFavourite,
    NavigatorRemoveFavourite,
    NavigatorRoomDetails,
    EnterRoomViaTeleporter,
    RoomUseTeleporter,
    GuestroomDelete,
    GuestroomModifyCore,
    GuestroomModifyDetails,
    GuestroomCreatePhaseOne,
    MessengerInstantMessage,
    MessengerInviteBuddies,
    MessengerAcceptRequests,
    MessengerDeclineRequests,
    MessengerRequestFriend,
    MessengerRemoveBuddy,
    CallForHelpPickup,
    MessengerRefreshUpdates,
    TypingStart,
    TypingStop,
    EventGetSetup,
    RoomKickAndBan,
    EventHostButtonVisibility,
    EventCheckCategory,
    EventOpenCategory,
    EventCreate,
    EventEdit,
    EventEnd,
    RoomVote,
    MoodlightLoadSettings,
    MoodlightUpdate,
    MoodlightToggle,
    GameLobbyRefresh,
    GameLobbyCheckout,
    GameLobbyRequestCreate,
    GameLobbyProcessCreate,
    GameLobbySwitchTeam,
    GameLobbyLeave,
    GameLobbyKick,
    GameLobbyStart,
    GameIngameMove,
    GameIngameReplayRequest,
    EnterRoomLoadingAdvertisement,
    NavigatorOpenCategory,
    NavigatorRoomCategoriesForPlacement,
    GuestroomModifyTrigger,
    GuestroomModifyCategory,
    NavigatorPublicroomUserlist,
    CallForHelpSend,
    ModtoolAction,
    ModtoolAlertUser,
    ModtoolKickUser,
    ModtoolBanUser,
    ModtoolRoomAlert,
    ModtoolRoomKick,
    CallForHelpDeleteByStaff,
    CallForHelpReply,
    CallForHelpStatus,
    CallForHelpDeleteOwn,
    RoomSpinWheelOfFortune,
    MessengerFollowBuddy,
    NavigatorRecommendedRooms,
    UserTags,
    RoomActivateLoveShuffler,
    GroupDetails,
    IgnoreUser,
    UnignoreUser,
    CallForHelpGoToRoom,
    GuideAvailable,
    GuideUnavailable,
    ConsoleSearchSetup,
    StatusIgnoreHabbo,
    StatusListenHabbo,
    RoomKickUser,
    CataloguePageIndex,
    CataloguePage,
    CataloguePurchase,
    RecyclerProceed,
    RecyclerRedeemOrCancel,
    RefreshHand,
    BuyGameTickets,
    RedeemVoucher,
    SoundMachineInitializeSongList,
    SoundMachineInitializePlaylist,
    SoundMachineGetSong,
    SoundMachineSavePlaylist,
    SoundMachineBurnSongToDisk,
    SoundMachineDeleteSong,
    SoundMachineEditorInitialize,
    SoundMachineEditorAddSoundset,
    SoundMachineEditorRemoveSoundset,
    SoundMachineEditorSaveNewSong,
    SoundMachineEditorEditSong,
    SoundMachineEditorSaveExistingSong,
    ConsoleSearch,
    Unknown,
}

/// The handler for the header characters `a` and `b`.
pub open spec fn route_spec(a: char, b: char) -> Route {
    match (a, b) {
        ('C', 'D') => Route::KeepAlive,
        ('@', 'q') => Route::Date,
        ('@', 'L') => Route::MessengerInit,
        ('@', 'Z') => Route::RefreshClub,
        ('@', 'G') => Route::RefreshAppearance,
        ('@', 'H') => Route::RefreshValueables,
        ('@', 'u') => Route::LeaveRoom,
        ('B', ']') => Route::RefreshBadges,
        ('C', 'd') => Route::RefreshGroupStatus,
        ('C', '^') => Route::RecyclerSetup,
        ('C', '_') => Route::RecyclerSession,
        ('@', 'B') => Route::EnterRoomDetermine,
        ('@', 'y') => Route::EnterRoomCheckAccess,
        ('@', '{') => Route::EnterRoomGuestroomData,
        ('A', '~') => Route::EnterRoomPublicroomAdvertisement,
        ('@', '|') => Route::EnterRoomLoad,
        ('@', '}') => Route::EnterRoomItems,
        ('@', '~') => Route::EnterRoomGroupsAndLobby,
        ('@', '\u{7f}') => Route::EnterRoomWallitems,
        ('A', '@') => Route::EnterRoomAddUser,
        ('A', '`') => Route::RoomGiveRights,
        ('A', 'O') => Route::RoomRotateUser,
        ('A', 'K') => Route::RoomWalkToSquare,
        ('A', 'a') => Route::RoomTakeRights,
        ('A', 'b') => Route::RoomAnswerDoorbell,
        ('A', 'Q') => Route::RoomEnterTeleporter,
        ('A', 's') => Route::RoomClickDoor,
        ('A', 't') => Route::RoomSelectSwimOutfit,
        ('A', 'Z') => Route::RoomPlaceItem,
        ('A', 'B') => Route::RoomApplyDecor,
        ('A', 'C') => Route::RoomPickupItem,
        ('A', 'I') => Route::RoomMoveItem,
        ('C', 'V') => Route::RoomToggleWallItem,
        ('A', 'J') => Route::RoomToggleFloorItem,
        ('A', 'X') => Route::StatusStop,
        ('A', '^') => Route::StatusWave,
        ('A', ']') => Route::StatusDance,
        ('A', 'h') => Route::StatusLidoVote,
        ('A', 'P') => Route::StatusCarryItem,
        ('B', '^') => Route::BadgesSwitch,
        ('A', 'L') => Route::ItemSpinDice,
        ('A', 'M') => Route::ItemCloseDice,
        ('A', 'N') => Route::ItemOpenPresentbox,
        ('B', 'w') => Route::ItemRedeemCredit,
        ('A', 'G') => Route::TradeStart,
        ('A', 'H') => Route::TradeOfferItem,
        ('A', 'D') => Route::TradeDecline,
        ('A', 'E') => Route::TradeAccept,
        ('A', 'F') => Route::TradeAbort,
        ('A', 'S') => Route::ItemOpenSticky,
        ('A', 'T') => Route::ItemEditSticky,
        ('A', 'U') => Route::ItemDeleteSticky,
        ('@', 't') => Route::ChatSay,
        ('@', 'w') => Route::ChatShout,
        ('@', 'x') => Route::RoomChatWhisper,
        ('C', 'l') => Route::RoomPollAnswer,
        ('@', 'P') => Route::NavigatorViewOwnRooms,
        ('@', 'Q') => Route::NavigatorRoomSearch,
        ('@', 'R') => Route::NavigatorFavouriteRooms,
        ('@', 'S') => Route::NavigatorAddFavourite,
        ('@', 'T') => Route::NavigatorRemoveFavourite,
        ('@', 'U') => Route::NavigatorRoomDetails,
        ('@', 'v') => Route::EnterRoomViaTeleporter,
        ('@', '\\') => Route::RoomUseTeleporter,
        ('@', 'W') => Route::GuestroomDelete,
        ('@', 'X') => Route::GuestroomModifyCore,
        ('@', 'Y') => Route::GuestroomModifyDetails,
        ('@', ']') => Route::GuestroomCreatePhaseOne,
        ('@', 'a') => Route::MessengerInstantMessage,
        ('@', 'b') => Route::MessengerInviteBuddies,
        ('@', 'e') => Route::MessengerAcceptRequests,
        ('@', 'f') => Route::MessengerDeclineRequests,
        ('@', 'g') => Route::MessengerRequestFriend,
        ('@', 'h') => Route::MessengerRemoveBuddy,
        ('@', 'p') => Route::CallForHelpPickup,
        ('@', 'O') => Route::MessengerRefreshUpdates,
        ('D', '}') => Route::TypingStart,
        ('D', '~') => Route::TypingStop,
        ('E', 'A') => Route::EventGetSetup,
        ('E', '@') => Route::RoomKickAndBan,
        ('E', 'Y') => Route::EventHostButtonVisibility,
        ('D', '{') => Route::EventCheckCategory,
        ('E', '^') => Route::EventOpenCategory,
        ('E', 'Z') => Route::EventCreate,
        ('E', '\\') => Route::EventEdit,
        ('E', '[') => Route::EventEnd,
        ('D', 'E') => Route::RoomVote,
        ('E', 'U') => Route::MoodlightLoadSettings,
        ('E', 'V') => Route::MoodlightUpdate,
        ('E', 'W') => Route::MoodlightToggle,
        ('B', '_') => Route::GameLobbyRefresh,
        ('B', '`') => Route::GameLobbyCheckout,
        ('B', 'b') => Route::GameLobbyRequestCreate,
        ('B', 'c') => Route::GameLobbyProcessCreate,
        ('B', 'e') => Route::GameLobbySwitchTeam,
        ('B', 'g') => Route::GameLobbyLeave,
        ('B', 'h') => Route::GameLobbyKick,
        ('B', 'j') => Route::GameLobbyStart,
        ('B', 'k') => Route::GameIngameMove,
        ('B', 'l') => Route::GameIngameReplayRequest,
        ('B', 'v') => Route::EnterRoomLoadingAdvertisement,
        ('B', 'V') => Route::NavigatorOpenCategory,
        ('B', 'W') => Route::NavigatorRoomCategoriesForPlacement,
        ('B', 'X') => Route::GuestroomModifyTrigger,
        ('B', 'Y') => Route::GuestroomModifyCategory,
        ('B', 'Z') => Route::NavigatorPublicroomUserlist,
        ('A', 'V') => Route::CallForHelpSend,
        ('C', 'H') => Route::ModtoolAction,
        ('H', 'H') => Route::ModtoolAlertUser,
        ('H', 'I') => Route::ModtoolKickUser,
        ('H', 'J') => Route::ModtoolBanUser,
        ('I', 'H') => Route::ModtoolRoomAlert,
        ('I', 'I') => Route::ModtoolRoomKick,
        ('C', 'F') => Route::CallForHelpDeleteByStaff,
        ('C', 'G') => Route::CallForHelpReply,
        ('C', 'm') => Route::CallForHelpStatus,
        ('C', 'n') => Route::CallForHelpDeleteOwn,
        ('C', 'w') => Route::RoomSpinWheelOfFortune,
        ('D', 'F') => Route::MessengerFollowBuddy,
        ('D', 'H') => Route::NavigatorRecommendedRooms,
        ('D', 'G') => Route::UserTags,
        ('D', 'z') => Route::RoomActivateLoveShuffler,
        ('C', 'g') => Route::GroupDetails,
        ('D', '\u{7f}') => Route::IgnoreUser,
        ('E', 'B') => Route::UnignoreUser,
        ('E', 'C') => Route::CallForHelpGoToRoom,
        ('E', 'j') => Route::GuideAvailable,
        ('E', 'k') => Route::GuideUnavailable,
        ('F', 's') => Route::ConsoleSearchSetup,
        ('c', 'I') => Route::StatusIgnoreHabbo,
        ('c', 'K') => Route::StatusListenHabbo,
        ('A', '_') => Route::RoomKickUser,
        ('A', 'e') => Route::CataloguePageIndex,
        ('A', 'f') => Route::CataloguePage,
        ('A', 'd') => Route::CataloguePurchase,
        ('C', 'a') => Route::RecyclerProceed,
        ('C', 'b') => Route::RecyclerRedeemOrCancel,
        ('A', 'A') => Route::RefreshHand,
        ('L', 'B') => Route::RefreshHand,
        ('A', 'i') => Route::BuyGameTickets,
        ('B', 'A') => Route::RedeemVoucher,
        ('C', 't') => Route::SoundMachineInitializeSongList,
        ('C', 'u') => Route::SoundMachineInitializePlaylist,
        ('C', ']') => Route::SoundMachineGetSong,
        ('C', 's') => Route::SoundMachineSavePlaylist,
        ('C', '~') => Route::SoundMachineBurnSongToDisk,
        ('C', 'x') => Route::SoundMachineDeleteSong,
        ('C', 'o') => Route::SoundMachineEditorInitialize,
        ('C', '[') => Route::SoundMachineEditorAddSoundset,
        ('C', '\\') => Route::SoundMachineEditorRemoveSoundset,
        ('C', 'p') => Route::SoundMachineEditorSaveNewSong,
        ('C', 'q') => Route::SoundMachineEditorEditSong,
        ('C', 'r') => Route::SoundMachineEditorSaveExistingSong,
        ('@', 'i') => Route::ConsoleSearch,
        _ => Route::Unknown,
    }
}

/// The handler for a header: the route of its two characters, `Unknown`
/// for a header of another length.
pub open spec fn header_route(header: Seq<char>) -> Route {
    if header.len() == 2 {
        route_spec(header[0], header[1])
    } else {
        Route::Unknown
    }
}

fn route_chars(a: char, b: char) -> (r: Route)
    ensures
        r == route_spec(a, b),
{
    match (a, b) {
        ('C', 'D') => Route::KeepAlive,
        ('@', 'q') => Route::Date,
        ('@', 'L') => Route::MessengerInit,
        ('@', 'Z') => Route::RefreshClub,
        ('@', 'G') => Route::RefreshAppearance,
        ('@', 'H') => Route::RefreshValueables,
        ('@', 'u') => Route::LeaveRoom,
        ('B', ']') => Route::RefreshBadges,
        ('C', 'd') => Route::RefreshGroupStatus,
        ('C', '^') => Route::RecyclerSetup,
        ('C', '_') => Route::RecyclerSession,
        ('@', 'B') => Route::EnterRoomDetermine,
        ('@', 'y') => Route::EnterRoomCheckAccess,
        ('@', '{') => Route::EnterRoomGuestroomData,
        ('A', '~') => Route::EnterRoomPublicroomAdvertisement,
        ('@', '|') => Route::EnterRoomLoad,
        ('@', '}') => Route::EnterRoomItems,
        ('@', '~') => Route::EnterRoomGroupsAndLobby,
        ('@', '\u{7f}') => Route::EnterRoomWallitems,
        ('A', '@') => Route::EnterRoomAddUser,
        ('A', '`') => Route::RoomGiveRights,
        ('A', 'O') => Route::RoomRotateUser,
        ('A', 'K') => Route::RoomWalkToSquare,
        ('A', 'a') => Route::RoomTakeRights,
        ('A', 'b') => Route::RoomAnswerDoorbell,
        ('A', 'Q') => Route::RoomEnterTeleporter,
        ('A', 's') => Route::RoomClickDoor,
        ('A', 't') => Route::RoomSelectSwimOutfit,
        ('A', 'Z') => Route::RoomPlaceItem,
        ('A', 'B') => Route::RoomApplyDecor,
        ('A', 'C') => Route::RoomPickupItem,
        ('A', 'I') => Route::RoomMoveItem,
        ('C', 'V') => Route::RoomToggleWallItem,
        ('A', 'J') => Route::RoomToggleFloorItem,
        ('A', 'X') => Route::StatusStop,
        ('A', '^') => Route::StatusWave,
        ('A', ']') => Route::StatusDance,
        ('A', 'h') => Route::StatusLidoVote,
        ('A', 'P') => Route::StatusCarryItem,
        ('B', '^') => Route::BadgesSwitch,
        ('A', 'L') => Route::ItemSpinDice,
        ('A', 'M') => Route::ItemCloseDice,
        ('A', 'N') => Route::ItemOpenPresentbox,
        ('B', 'w') => Route::ItemRedeemCredit,
        ('A', 'G') => Route::TradeStart,
        ('A', 'H') => Route::TradeOfferItem,
        ('A', 'D') => Route::TradeDecline,
        ('A', 'E') => Route::TradeAccept,
        ('A', 'F') => Route::TradeAbort,
        ('A', 'S') => Route::ItemOpenSticky,
        ('A', 'T') => Route::ItemEditSticky,
        ('A', 'U') => Route::ItemDeleteSticky,
        ('@', 't') => Route::ChatSay,
        ('@', 'w') => Route::ChatShout,
        ('@', 'x') => Route::RoomChatWhisper,
        ('C', 'l') => Route::RoomPollAnswer,
        ('@', 'P') => Route::NavigatorViewOwnRooms,
        ('@', 'Q') => Route::NavigatorRoomSearch,
        ('@', 'R') => Route::NavigatorFavouriteRooms,
        ('@', 'S') => Route::NavigatorAddFavourite,
        ('@', 'T') => Route::NavigatorRemoveFavourite,
        ('@', 'U') => Route::NavigatorRoomDetails,
        ('@', 'v') => Route::EnterRoomViaTeleporter,
        ('@', '\\') => Route::RoomUseTeleporter,
        ('@', 'W') => Route::GuestroomDelete,
        ('@', 'X') => Route::GuestroomModifyCore,
        ('@', 'Y') => Route::GuestroomModifyDetails,
        ('@', ']') => Route::GuestroomCreatePhaseOne,
        ('@', 'a') => Route::MessengerInstantMessage,
        ('@', 'b') => Route::MessengerInviteBuddies,
        ('@', 'e') => Route::MessengerAcceptRequests,
        ('@', 'f') => Route::MessengerDeclineRequests,
        ('@', 'g') => Route::MessengerRequestFriend,
        ('@', 'h') => Route::MessengerRemoveBuddy,
        ('@', 'p') => Route::CallForHelpPickup,
        ('@', 'O') => Route::MessengerRefreshUpdates,
        ('D', '}') => Route::TypingStart,
        ('D', '~') => Route::TypingStop,
        ('E', 'A') => Route::EventGetSetup,
        ('E', '@') => Route::RoomKickAndBan,
        ('E', 'Y') => Route::EventHostButtonVisibility,
        ('D', '{') => Route::EventCheckCategory,
        ('E', '^') => Route::EventOpenCategory,
        ('E', 'Z') => Route::EventCreate,
        ('E', '\\') => Route::EventEdit,
        ('E', '[') => Route::EventEnd,
        ('D', 'E') => Route::RoomVote,
        ('E', 'U') => Route::MoodlightLoadSettings,
        ('E', 'V') => Route::MoodlightUpdate,
        ('E', 'W') => Route::MoodlightToggle,
        ('B', '_') => Route::GameLobbyRefresh,
        ('B', '`') => Route::GameLobbyCheckout,
        ('B', 'b') => Route::GameLobbyRequestCreate,
        ('B', 'c') => Route::GameLobbyProcessCreate,
        ('B', 'e') => Route::GameLobbySwitchTeam,
        ('B', 'g') => Route::GameLobbyLeave,
        ('B', 'h') => Route::GameLobbyKick,
        ('B', 'j') => Route::GameLobbyStart,
        ('B', 'k') => Route::GameIngameMove,
        ('B', 'l') => Route::GameIngameReplayRequest,
        ('B', 'v') => Route::EnterRoomLoadingAdvertisement,
        ('B', 'V') => Route::NavigatorOpenCategory,
        ('B', 'W') => Route::NavigatorRoomCategoriesForPlacement,
        ('B', 'X') => Route::GuestroomModifyTrigger,
        ('B', 'Y') => Route::GuestroomModifyCategory,
        ('B', 'Z') => Route::NavigatorPublicroomUserlist,
        ('A', 'V') => Route::CallForHelpSend,
        ('C', 'H') => Route::ModtoolAction,
        ('H', 'H') => Route::ModtoolAlertUser,
        ('H', 'I') => Route::ModtoolKickUser,
        ('H', 'J') => Route::ModtoolBanUser,
        ('I', 'H') => Route::ModtoolRoomAlert,
        ('I', 'I') => Route::ModtoolRoomKick,
        ('C', 'F') => Route::CallForHelpDeleteByStaff,
        ('C', 'G') => Route::CallForHelpReply,
        ('C', 'm') => Route::CallForHelpStatus,
        ('C', 'n') => Route::CallForHelpDeleteOwn,
        ('C', 'w') => Route::RoomSpinWheelOfFortune,
        ('D', 'F') => Route::MessengerFollowBuddy,
        ('D', 'H') => Route::NavigatorRecommendedRooms,
        ('D', 'G') => Route::UserTags,
        ('D', 'z') => Route::RoomActivateLoveShuffler,
        ('C', 'g') => Route::GroupDetails,
        ('D', '\u{7f}') => Route::IgnoreUser,
        ('E', 'B') => Route::UnignoreUser,
        ('E', 'C') => Route::CallForHelpGoToRoom,
        ('E', 'j') => Route::GuideAvailable,
        ('E', 'k') => Route::GuideUnavailable,
        ('F', 's') => Route::ConsoleSearchSetup,
        ('c', 'I') => Route::StatusIgnoreHabbo,
        ('c', 'K') => Route::StatusListenHabbo,
        ('A', '_') => Route::RoomKickUser,
        ('A', 'e') => Route::CataloguePageIndex,
        ('A', 'f') => Route::CataloguePage,
        ('A', 'd') => Route::CataloguePurchase,
        ('C', 'a') => Route::RecyclerProceed,
        ('C', 'b') => Route::RecyclerRedeemOrCancel,
        ('A', 'A') => Route::RefreshHand,
        ('L', 'B') => Route::RefreshHand,
        ('A', 'i') => Route::BuyGameTickets,
        ('B', 'A') => Route::RedeemVoucher,
        ('C', 't') => Route::SoundMachineInitializeSongList,
        ('C', 'u') => Route::SoundMachineInitializePlaylist,
        ('C', ']') => Route::SoundMachineGetSong,
        ('C', 's') => Route::SoundMachineSavePlaylist,
        ('C', '~') => Route::SoundMachineBurnSongToDisk,
        ('C', 'x') => Route::SoundMachineDeleteSong,
        ('C', 'o') => Route::SoundMachineEditorInitialize,
        ('C', '[') => Route::SoundMachineEditorAddSoundset,
        ('C', '\\') => Route::SoundMachineEditorRemoveSoundset,
        ('C', 'p') => Route::SoundMachineEditorSaveNewSong,
        ('C', 'q') => Route::SoundMachineEditorEditSong,
        ('C', 'r') => Route::SoundMachineEditorSaveExistingSong,
        ('@', 'i') => Route::ConsoleSearch,
        _ => Route::Unknown,
    }
}

/// The handler for a header (see `header_route`).
pub fn route(header: &str) -> (r: Route)
    ensures
        r == header_route(header@),
{
    let cs = to_chars(header);
    if cs.len() != 2 {
        return Route::Unknown;
    }
    route_chars(cs[0], cs[1])
}

} // verus!
