/* The structured-exception frame that app/live.rs runs its memory accesses and engine calls in.
 * Compiled with the MSVC toolchain and linked into the DLL. */
#include <windows.h>

int huragok_seh_try(void (*cb)(void *), void *ctx)
{
    __try {
        cb(ctx);
        return 1;
    } __except (EXCEPTION_EXECUTE_HANDLER) {
        return 0;
    }
}
